//! The handler that acts when the seat becomes idle or active: it fades the LEDs out
//! and lets the screen's frames come back.

use vstd::prelude::*;

use crate::bridge::automation;
use crate::bridge::automation::{Automation, Control, FrameRequest, LedEvent};
use crate::bridge::frame::FrameStage;
use crate::bridge::idle;
use crate::bridge::idle::IdleState;
use crate::bridge::messaging;
use crate::bridge::messaging::{Message, Outgoing};
use crate::bridge::ScreenEvent;
use crate::client::session::{DisconnectOutcome, Sessions};
use crate::client::{ClientAddr, ClientReq, ClientReqData};
use crate::daemoncomm::{ClientDataModel, LedCommand, MessageToServer, MessageToServerData};
use crate::ids::MessageId;
use crate::wayland::idle::IdleEvent;

verus! {

/// The event handler without a camera.
#[derive(Debug)]
pub struct Handler {
    pub automation: Automation,
    pub inhibit: IdleState,
    /// Whether the seat counted as idle when that was last looked at.
    pub idle: bool,
}

/// The model of [`Handler`].
#[verifier::ext_equal]
pub struct AmbientState {
    pub control: Control,
    pub inhibit: IdleState,
    pub idle: bool,
}

impl AmbientState {
    /// What was to be sent has been taken.
    pub open spec fn taken(self) -> AmbientState {
        AmbientState { control: Control { sent: Seq::empty(), ..self.control }, ..self }
    }

    /// These messages are to be sent, too.
    pub open spec fn sending(self, messages: Seq<Message>) -> AmbientState {
        AmbientState { control: self.control.sending(messages), ..self }
    }

    /// What holds between events.
    pub open spec fn wf(self) -> bool {
        &&& self.idle == self.inhibit.is_idle()
        &&& self.inhibit.wf()
        &&& self.control.wf()
    }

    /// After looking whether the seat counts as idle now.
    pub open spec fn synced(self) -> AmbientState {
        let idle = self.inhibit.is_idle();
        AmbientState {
            idle,
            control: if idle && !self.idle {
                self.control.idle_entered()
            } else if !idle && self.idle {
                self.control.idle_left()
            } else {
                self.control
            },
            ..self
        }
    }

    /// After the screen has a frame ready.
    pub open spec fn frame_ready(self) -> (AmbientState, Option<FrameRequest>) {
        let (control, request) = self.control.frame_asked(self.idle);
        (AmbientState { control, ..self }, request)
    }

    pub open spec fn seat_changed(self, event: IdleEvent) -> AmbientState {
        AmbientState {
            inhibit: IdleState { seat_idle: event == IdleEvent::Idle, ..self.inhibit },
            ..self
        }.synced()
    }

    pub open spec fn timed_out(self) -> AmbientState {
        let after = AmbientState { inhibit: self.inhibit.timed_out(), ..self };
        if self.inhibit.idle_inhibit {
            after.synced()
        } else {
            after
        }
    }

    pub open spec fn inhibit_answered(
        self,
        addr: ClientAddr,
        id: MessageId,
        now: u64,
    ) -> AmbientState {
        self.sending(
            seq![
                messaging::reply(
                    addr,
                    id,
                    ClientDataModel::IdleInhibit {
                        enabled: self.inhibit.idle_inhibit,
                        timeout_ms: self.inhibit.remaining(now),
                    },
                ),
                messaging::ack(addr, id),
            ],
        )
    }

    /// The idle inhibition is set, and what follows from it done.
    pub open spec fn inhibit_applied(
        self,
        enabled: bool,
        timeout_ms: Option<u64>,
        now: u64,
    ) -> AmbientState {
        AmbientState {
            inhibit: self.inhibit.inhibited(enabled, timeout_ms, now),
            ..self
        }.sending(self.inhibit.timer_messages(enabled, timeout_ms)).synced()
    }

    pub open spec fn messaged(self, addr: ClientAddr, msg: MessageToServer, now: u64) -> AmbientState {
        match msg.data {
            MessageToServerData::Led(command) => AmbientState {
                control: self.control.led_requested(addr, msg.id, command),
                ..self
            },
            MessageToServerData::SetManualMode { enabled } => AmbientState {
                control: self.control.manual_requested(self.idle, addr, msg.id, enabled),
                ..self
            },
            MessageToServerData::GetManualMode => AmbientState {
                control: self.control.manual_queried(addr, msg.id),
                ..self
            },
            MessageToServerData::SetIdleInhibit { enabled, timeout_ms } => self.inhibit_applied(
                enabled,
                timeout_ms,
                now,
            ).inhibit_answered(addr, msg.id, now),
            MessageToServerData::GetIdleInhibit => self.inhibit_answered(addr, msg.id, now),
            MessageToServerData::Kinect(command) => self,
        }
    }

    pub open spec fn registered(self, addr: ClientAddr) -> AmbientState {
        AmbientState {
            control: Control {
                sessions: self.control.sessions.registered(addr),
                ..self.control
            },
            ..self
        }
    }

    pub open spec fn requested(self, req: ClientReq, now: u64) -> AmbientState {
        match req.data {
            ClientReqData::Message(msg) => self.registered(req.addr).messaged(req.addr, msg, now),
            ClientReqData::Disconnected => AmbientState {
                control: self.control.disconnected(self.idle, req.addr),
                ..self
            },
        }
    }
}

/// Whether the request is for the camera, which this handler does not have.
pub open spec fn is_for_kinect(req: ClientReq) -> bool {
    req.data matches ClientReqData::Message(msg) && msg.data is Kinect
}

impl View for Handler {
    type V = AmbientState;

    open spec fn view(&self) -> AmbientState {
        AmbientState { control: self.automation@, inhibit: self.inhibit, idle: self.idle }
    }
}

impl Handler {
    pub fn new() -> (handler: Self)
        ensures
            handler@.wf(),
            !handler@.idle,
            handler@.inhibit == IdleState::initial(),
            handler@.control.is_new(),
    {
        Handler { automation: Automation::new(), inhibit: IdleState::new(), idle: false }
    }

    /// What has to be sent because of the events so far.
    pub fn take_messages(&mut self) -> (messages: Vec<Outgoing>)
        ensures
            messages@.map_values(|out: Outgoing| out@) == old(self)@.control.sent,
            final(self)@ == old(self)@.taken(),
    {
        self.automation.messenger.take()
    }

    /// Takes in what the screen reports: a frame to be computed, if there is one.
    pub fn handle_wayland_event(&mut self, event: ScreenEvent) -> (request: Option<FrameRequest>)
        ensures
            match event {
                ScreenEvent::Idle(seat) => request is None && final(self)@ == old(
                    self,
                )@.seat_changed(seat),
                ScreenEvent::FrameReady => {
                    &&& (final(self)@, request) == old(self)@.frame_ready()
                    &&& request is None ==> *final(self) == *old(self)
                },
            },
    {
        match event {
            ScreenEvent::Idle(IdleEvent::Idle) => {
                self.inhibit.seat_idle = true;
                self.update_effective_idle_state();
                None
            },
            ScreenEvent::Idle(IdleEvent::Active) => {
                self.inhibit.seat_idle = false;
                self.update_effective_idle_state();
                None
            },
            ScreenEvent::FrameReady => self.automation.dispatch_frame(self.idle),
        }
    }

    /// How starting the computation of a frame went.
    pub fn frame_dispatched(&mut self, request: FrameRequest, accepted: bool, now: u64)
        ensures
            accepted ==> final(self)@ == (AmbientState {
                control: old(self)@.control.frame_started(request, now),
                ..old(self)@
            }),
            !accepted ==> *final(self) == *old(self),
    {
        self.automation.frame_dispatched(request, accepted, now);
    }

    pub fn handle_frame_stage(&mut self, stage: FrameStage) -> (skipped_start: Option<u64>)
        ensures
            final(self)@ == (AmbientState {
                control: Control {
                    pipeline: old(self)@.control.pipeline.after(stage),
                    ..old(self)@.control
                },
                ..old(self)@
            }),
            skipped_start == old(self)@.control.pipeline.skipped_start(stage),
    {
        self.automation.handle_frame_stage(stage)
    }

    pub fn handle_led_event(&mut self, event: LedEvent) -> (completed: Option<(u64, u64)>)
        ensures
            final(self)@ == (AmbientState {
                control: old(self)@.control.led_reported(event),
                ..old(self)@
            }),
            completed == old(self)@.control.frame_confirmed(event),
    {
        self.automation.handle_led_event(event)
    }

    pub fn handle_client_command(&mut self, req: ClientReq, now: u64)
        requires
            !is_for_kinect(req),
        ensures
            final(self)@ == old(self)@.requested(req, now),
    {
        match req.data {
            ClientReqData::Message(msg) => {
                let _ = self.automation.register_client(req.addr);
                self.handle_client_message(req.addr, msg, now);
            },
            ClientReqData::Disconnected => {
                let _ = self.handle_client_disconnect(req.addr);
            },
        }
    }

    pub fn handle_client_message(&mut self, addr: ClientAddr, msg: MessageToServer, now: u64)
        requires
            !(msg.data is Kinect),
        ensures
            final(self)@ == old(self)@.messaged(addr, msg, now),
    {
        match msg.data {
            MessageToServerData::Led(command) => {
                self.automation.handle_client_led(addr, msg.id, command);
            },
            MessageToServerData::SetManualMode { enabled } => {
                self.automation.handle_manual_mode_request(self.idle, addr, msg.id, enabled);
            },
            MessageToServerData::GetManualMode => {
                self.automation.handle_manual_query(addr, msg.id);
            },
            MessageToServerData::SetIdleInhibit { enabled, timeout_ms } => {
                let _ = self.handle_idle_inhibit_request(addr, msg.id, enabled, timeout_ms, now);
            },
            MessageToServerData::GetIdleInhibit => {
                self.answer_inhibit(addr, msg.id, now);
            },
            MessageToServerData::Kinect(_) => {},
        }
    }

    pub fn handle_client_disconnect(&mut self, addr: ClientAddr) -> (outcome: DisconnectOutcome)
        ensures
            final(self)@ == (AmbientState {
                control: old(self)@.control.disconnected(old(self)@.idle, addr),
                ..old(self)@
            }),
            outcome == old(self)@.control.sessions.remove_outcome(addr),
    {
        self.automation.handle_client_disconnect(self.idle, addr)
    }

    /// Takes in a request about the idle inhibition; whether it changed anything.
    pub fn handle_idle_inhibit_request(
        &mut self,
        addr: ClientAddr,
        id: MessageId,
        enabled: bool,
        timeout_ms: Option<u64>,
        now: u64,
    ) -> (changed: bool)
        ensures
            final(self)@ == old(self)@.inhibit_applied(enabled, timeout_ms, now).inhibit_answered(
                addr,
                id,
                now,
            ),
            changed == old(self)@.inhibit.inhibit_changes(enabled, timeout_ms),
    {
        let changed = self.apply_idle_inhibit_state(enabled, timeout_ms, now);
        self.answer_inhibit(addr, id, now);
        changed
    }

    pub fn apply_idle_inhibit_state(&mut self, enabled: bool, timeout_ms: Option<u64>, now: u64) -> (changed:
        bool)
        ensures
            final(self)@ == old(self)@.inhibit_applied(enabled, timeout_ms, now),
            changed == old(self)@.inhibit.inhibit_changes(enabled, timeout_ms),
    {
        let changed = self.inhibit.apply_inhibit(
            enabled,
            timeout_ms,
            now,
            &mut self.automation.messenger,
        );
        self.update_effective_idle_state();
        changed
    }

    fn answer_inhibit(&mut self, addr: ClientAddr, id: MessageId, now: u64)
        ensures
            final(self)@ == old(self)@.inhibit_answered(addr, id, now),
    {
        let ghost before = self@;
        let enabled = self.inhibit.idle_inhibit;
        let remaining = self.inhibit.remaining_inhibit_ms(now);
        self.automation.messenger.send_idle_inhibit_state(addr, id, enabled, remaining);
        self.automation.messenger.ack(addr, id);
        assert(self@.control.sent =~= before.inhibit_answered(addr, id, now).control.sent);
    }

    pub fn on_idle_inhibit_timeout(&mut self)
        ensures
            final(self)@ == old(self)@.timed_out(),
    {
        let inhibited = self.inhibit.idle_inhibit;
        self.inhibit.on_timeout();
        if inhibited {
            self.update_effective_idle_state();
        }
    }

    /// Stops the idle timer before the daemon ends.
    pub fn shut_down(&mut self)
        ensures
            final(self)@ == (AmbientState {
                inhibit: IdleState { timer_running: false, ..old(self)@.inhibit },
                ..old(self)@
            }).sending(old(self)@.inhibit.cancel_messages()),
    {
        self.inhibit.cancel_timer(&mut self.automation.messenger);
    }

    pub fn update_effective_idle_state(&mut self)
        ensures
            final(self)@ == old(self)@.synced(),
    {
        let effective_idle = self.inhibit.effective_idle();
        if effective_idle {
            if !self.idle {
                self.idle = true;
                self.automation.on_enter_idle();
            }
            return;
        }
        if self.idle {
            self.idle = false;
            self.automation.on_exit_idle();
        }
    }
}

/// Whatever happens, the handler's view of the seat stays current: it takes the seat
/// for idle exactly when it is and nothing inhibits that.
pub proof fn idle_state_stays_current(
    state: AmbientState,
    event: IdleEvent,
    req: ClientReq,
    now: u64,
)
    requires
        state.wf(),
    ensures
        state.seat_changed(event).wf(),
        state.timed_out().wf(),
        state.requested(req, now).wf(),
{
}

/// Becoming idle fades the LEDs out once: hearing of it again changes nothing.
pub proof fn idle_is_acted_on_once(state: AmbientState, event: IdleEvent)
    requires
        state.wf(),
    ensures
        state.seat_changed(event).seat_changed(event) == state.seat_changed(event),
{
}

/// An idle seat computes no frames. When it becomes active again the screen is asked
/// for its next frame, which is faded in unless a client controls the LEDs.
pub proof fn activity_brings_frames_back(state: AmbientState)
    requires
        state.wf(),
        state.idle,
    ensures
        !state.control.shows_frames(state.idle),
        state.seat_changed(IdleEvent::Active).control.sent.last() == Message::ComputeDone,
        !state.control.sessions.manual ==> state.seat_changed(
            IdleEvent::Active,
        ).control.pending_fade_in && state.seat_changed(IdleEvent::Active).control.shows_frames(
            state.seat_changed(IdleEvent::Active).idle,
        ),
{
}

/// An inhibition keeps an idle seat lit, and its end lets the LEDs fade out.
pub proof fn inhibition_keeps_leds_lit(state: AmbientState, timeout_ms: Option<u64>, now: u64)
    requires
        state.wf(),
        state.inhibit.seat_idle,
    ensures
        !state.inhibit_applied(true, timeout_ms, now).idle,
        state.inhibit_applied(true, timeout_ms, now).timed_out().idle,
        !state.control.sessions.manual ==> state.inhibit_applied(
            true,
            timeout_ms,
            now,
        ).timed_out().control.sent.last() == automation::fade_out(),
{
}

/// The part of what is sent that is new does not concern the LEDs, in whatever way the
/// seat becomes idle or active, while clients control them.
pub proof fn seat_does_not_touch_manual_leds(
    state: AmbientState,
    event: IdleEvent,
    enabled: bool,
    timeout_ms: Option<u64>,
    now: u64,
)
    requires
        state.control.sessions.manual,
    ensures
        automation::leaves_leds_alone(
            state.control.sent,
            state.seat_changed(event).control.sent,
        ),
        automation::leaves_leds_alone(state.control.sent, state.timed_out().control.sent),
        automation::leaves_leds_alone(
            state.control.sent,
            state.inhibit_applied(enabled, timeout_ms, now).control.sent,
        ),
        state.seat_changed(event).control.sessions == state.control.sessions,
        state.timed_out().control.sessions == state.control.sessions,
        state.inhibit_applied(enabled, timeout_ms, now).control.sessions
            == state.control.sessions,
{
    let sent = state.control.sent;
    assert(state.seat_changed(event).control.sent.take(sent.len() as int) =~= sent);
    assert(state.timed_out().control.sent.take(sent.len() as int) =~= sent);
    assert(state.inhibit_applied(enabled, timeout_ms, now).control.sent.take(sent.len() as int)
        =~= sent);
}

/// As long as the manual mode lasts, whatever a client does, all that reaches the LEDs is
/// the command that the client sent.
pub proof fn manual_leds_obey_clients_only(state: AmbientState, req: ClientReq, now: u64, i: int)
    requires
        state.control.sessions.manual,
        state.requested(req, now).control.sessions.manual,
        state.control.sent.len() <= i < state.requested(req, now).control.sent.len(),
        state.requested(req, now).control.sent[i] is Led,
    ensures
        req.data matches ClientReqData::Message(msg) && msg.data matches MessageToServerData::Led(
            command,
        ) && state.requested(req, now).control.sent[i] == Message::Led(command),
{
}

/// A client's command reaches the LEDs unchanged in manual mode, behind its
/// acknowledgement; otherwise it is refused and nothing reaches them.
pub proof fn commands_reach_leds_in_manual_mode(
    state: AmbientState,
    addr: ClientAddr,
    id: MessageId,
    command: LedCommand,
    now: u64,
)
    ensures
        ({
            let msg = MessageToServer { id, data: MessageToServerData::Led(command) };
            let after = state.messaged(addr, msg, now).control;
            &&& state.control.sessions.manual ==> after.sent == state.control.sent.push(
                messaging::reply(addr, id, ClientDataModel::Ack),
            ).push(Message::Led(command))
            &&& !state.control.sessions.manual ==> after.sent == state.control.sent.push(
                messaging::reply(
                    addr,
                    id,
                    ClientDataModel::Nack { reason: "manual_mode_disabled"@ },
                ),
            )
            &&& after.sessions == state.control.sessions
        }),
{
    let msg = MessageToServer { id, data: MessageToServerData::Led(command) };
    let after = state.messaged(addr, msg, now).control;
    if state.control.sessions.manual {
        assert(after.sent =~= state.control.sent.push(
            messaging::reply(addr, id, ClientDataModel::Ack),
        ).push(Message::Led(command)));
    }
}

/// A seat that nobody uses, with no client in control and nothing inhibiting it, fades the
/// LEDs out; the one that is used again brings them back, whether the user came back or
/// somebody inhibits the idling.
pub proof fn idle_seat_goes_dark_and_comes_back(
    state: AmbientState,
    timeout_ms: Option<u64>,
    now: u64,
)
    requires
        state.wf(),
        !state.control.sessions.manual,
        !state.inhibit.seat_idle,
        !state.inhibit.idle_inhibit,
    ensures
        ({
            let away = state.seat_changed(IdleEvent::Idle);
            let back = away.seat_changed(IdleEvent::Active);
            let kept = away.inhibit_applied(true, timeout_ms, now);
            &&& away.idle
            &&& away.control.sent == state.control.sent.push(
                Message::Led(LedCommand::FadeOut { duration_ms: None }),
            )
            &&& !away.control.shows_frames(away.idle)
            &&& !back.idle
            &&& back.control.sent == away.control.sent.push(Message::ComputeDone)
            &&& back.control.pending_fade_in
            &&& back.control.shows_frames(back.idle)
            &&& back.inhibit == state.inhibit
            &&& !kept.idle
            &&& kept.control.sent.last() == Message::ComputeDone
            &&& kept.control.pending_fade_in
            &&& kept.control.shows_frames(kept.idle)
        }),
{
}

/// While idling is inhibited, the user going away or coming back changes nothing that is
/// sent.
pub proof fn inhibited_seat_sends_nothing(state: AmbientState, event: IdleEvent)
    requires
        state.wf(),
        state.inhibit.idle_inhibit,
    ensures
        state.seat_changed(event).control == state.control,
        !state.seat_changed(event).idle,
        state.seat_changed(event).inhibit.seat_idle == (event == IdleEvent::Idle),
{
}

/// The last client leaving an idle seat lets the LEDs fade out and stay dark; at a seat in
/// use the screen takes over again.
pub proof fn last_client_leaves_seat_as_it_is(
    state: AmbientState,
    addr: ClientAddr,
    now: u64,
)
    requires
        state.wf(),
        state.control.sessions.manual,
        state.control.sessions.clients == set![addr],
    ensures
        ({
            let away = state.inhibit.seat_idle && !state.inhibit.idle_inhibit;
            let left = state.requested(
                ClientReq { addr, data: ClientReqData::Disconnected },
                now,
            );
            &&& left.idle == away
            &&& left.inhibit == state.inhibit
            &&& !left.control.sessions.manual
            &&& left.control.pending_fade_in == away
            &&& left.control.shows_frames(left.idle) == !away
            &&& left.control.sent.last() == (if away {
                Message::Led(LedCommand::FadeOut { duration_ms: None })
            } else {
                Message::ComputeDone
            })
        }),
{
    automation::leaving_hands_back_like_giving_up(state.control, state.idle, addr, 0);
}

/// Giving up the manual mode at an idle seat lets the LEDs fade out and stay dark; at a seat
/// in use the screen's last frame comes back and the next one is asked for.
pub proof fn giving_up_leaves_seat_as_it_is(
    state: AmbientState,
    addr: ClientAddr,
    id: MessageId,
    now: u64,
)
    requires
        state.wf(),
        state.control.sessions.manual,
    ensures
        ({
            let away = state.inhibit.seat_idle && !state.inhibit.idle_inhibit;
            let msg = MessageToServer {
                id,
                data: MessageToServerData::SetManualMode { enabled: false },
            };
            let after = state.messaged(addr, msg, now).control;
            let n = state.control.sent.len() as int;
            &&& !after.sessions.manual
            &&& after.pending_fade_in == away
            &&& after.sent.last() == messaging::reply(addr, id, ClientDataModel::Ack)
            &&& !away ==> after.sent[n] == Message::Led(
                LedCommand::SetStripState(state.control.pipeline.last_auto_frame),
            ) && after.sent[n + 1] == Message::ComputeDone && after.sent.len() == n + 4
            &&& away && !state.control.manual_started_while_idle ==> after.sent[n] == Message::Led(
                LedCommand::SetStripState(state.control.pipeline.last_auto_frame),
            ) && after.sent[n + 1] == Message::Led(LedCommand::FadeOut { duration_ms: None })
                && after.sent.len() == n + 4
            &&& away && state.control.manual_started_while_idle ==> after.sent[n] == Message::Led(
                LedCommand::FadeOut { duration_ms: None },
            ) && after.sent.len() == n + 3
        }),
{
}

/// The answer to a request about the inhibition says what now holds: with a time, how much
/// of it is left, which is all of it right after it was asked for.
pub proof fn inhibition_is_answered_truly(
    state: AmbientState,
    addr: ClientAddr,
    id: MessageId,
    enabled: bool,
    timeout_ms: Option<u64>,
    now: u64,
)
    ensures
        ({
            let asked = MessageToServer {
                id,
                data: MessageToServerData::SetIdleInhibit { enabled, timeout_ms },
            };
            let after = state.messaged(addr, asked, now);
            let queried = after.messaged(
                addr,
                MessageToServer { id, data: MessageToServerData::GetIdleInhibit },
                now,
            );
            let n = after.control.sent.len();
            let answer = messaging::reply(
                addr,
                id,
                ClientDataModel::IdleInhibit {
                    enabled,
                    timeout_ms: if enabled {
                        timeout_ms
                    } else {
                        None
                    },
                },
            );
            let done = messaging::reply(addr, id, ClientDataModel::Ack);
            &&& n >= 2
            &&& after.control.sent[n - 2] == answer
            &&& after.control.sent[n - 1] == done
            &&& queried.control.sent == after.control.sent.push(answer).push(done)
            &&& queried.inhibit == after.inhibit
            &&& after.inhibit.idle_inhibit == enabled
        }),
{
    let asked = MessageToServer {
        id,
        data: MessageToServerData::SetIdleInhibit { enabled, timeout_ms },
    };
    let after = state.messaged(addr, asked, now);
    let queried = after.messaged(
        addr,
        MessageToServer { id, data: MessageToServerData::GetIdleInhibit },
        now,
    );
    if let Some(ms) = timeout_ms {
        idle::inhibition_counts_down(state.inhibit, ms, now, now);
    }
    let n = after.control.sent.len();
    assert(queried.control.sent =~= after.control.sent.push(after.control.sent[n - 2]).push(
        after.control.sent[n - 1],
    ));
}

/// Whoever sends a message is a client from then on, until it leaves; other clients are
/// not affected.
pub proof fn clients_come_and_go(
    state: AmbientState,
    addr: ClientAddr,
    other: ClientAddr,
    msg: MessageToServer,
    now: u64,
)
    requires
        other != addr,
        !(msg.data is Kinect),
    ensures
        ({
            let came = state.requested(ClientReq { addr, data: ClientReqData::Message(msg) }, now);
            let left = state.requested(ClientReq { addr, data: ClientReqData::Disconnected }, now);
            &&& came.control.sessions.clients.contains(addr)
            &&& !left.control.sessions.clients.contains(addr)
            &&& came.control.sessions.clients.contains(other)
                == state.control.sessions.clients.contains(other)
            &&& left.control.sessions.clients.contains(other)
                == state.control.sessions.clients.contains(other)
        }),
{
}

/// The end of an inhibition at a seat that nobody uses lets the LEDs fade out, unless clients
/// control them; the timer running out without an inhibition changes nothing that is sent.
pub proof fn inhibition_ends_in_darkness(state: AmbientState, now: u64)
    requires
        state.wf(),
    ensures
        ({
            let over = state.timed_out();
            let lifted = state.inhibit_applied(false, None, now);
            let dark = Message::Led(LedCommand::FadeOut { duration_ms: None });
            &&& over.idle == state.inhibit.seat_idle
            &&& lifted.idle == state.inhibit.seat_idle
            &&& state.inhibit.idle_inhibit && state.inhibit.seat_idle
                && !state.control.sessions.manual ==> over.control.sent == state.control.sent.push(
                dark,
            ) && lifted.control.sent.last() == dark
            &&& !state.inhibit.idle_inhibit || !state.inhibit.seat_idle ==> over.control
                == state.control
            &&& over.control.sessions == state.control.sessions
        }),
{
}

/// A frame that the screen has ready is computed exactly when somebody uses the seat, or
/// idling is inhibited, and no client controls the LEDs; it has the next number and is faded
/// in if that is due. Nothing is sent for it, and an idle seat or a client's control changes
/// nothing.
pub proof fn ready_frame_is_computed_for_the_screen(state: AmbientState)
    requires
        state.wf(),
    ensures
        ({
            let (after, request) = state.frame_ready();
            let away = state.inhibit.seat_idle && !state.inhibit.idle_inhibit;
            &&& request is Some <==> !away && !state.control.sessions.manual
            &&& request matches Some(frame) ==> frame.frame_id == state.control.pipeline.next_id
                && frame.fade_in == state.control.pending_fade_in
            &&& request is None ==> after == state
            &&& after.control.sent == state.control.sent
            &&& after.inhibit == state.inhibit
            &&& after.idle == state.idle
        }),
{
}

/// The user coming back to the seat gets the LEDs faded in, once.
pub proof fn coming_back_fades_in_once(state: AmbientState, now: u64)
    requires
        state.wf(),
        state.idle,
        !state.control.sessions.manual,
    ensures
        ({
            let back = state.seat_changed(IdleEvent::Active);
            let (asked, request) = back.frame_ready();
            let started = AmbientState {
                control: asked.control.frame_started(request->Some_0, now),
                ..asked
            };
            &&& request is Some
            &&& request->Some_0.fade_in
            &&& started.frame_ready().1 is Some
            &&& !started.frame_ready().1->Some_0.fade_in
        }),
{
}

/// What is to be sent is taken once, and nothing else changes by that.
pub proof fn messages_are_taken_once(state: AmbientState, messages: Seq<Message>)
    ensures
        state.taken().control.sent.len() == 0,
        state.taken().sending(state.control.sent) == state,
        state.taken().sending(messages).control.sent == messages,
{
    assert(Seq::<Message>::empty() + state.control.sent =~= state.control.sent);
    assert(Seq::<Message>::empty() + messages =~= messages);
}

} // verus!
