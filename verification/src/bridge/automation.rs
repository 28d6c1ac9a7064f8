//! The automatic display of the screen's colours and its handover to clients.

use vstd::prelude::*;

use crate::bridge::frame::{FramePipeline, FrameStage, Pipeline};
use crate::bridge::messaging;
use crate::bridge::messaging::{Message, Messenger, Outgoing};
use crate::client::session::{ClientSessions, DisconnectOutcome, Sessions};
use crate::client::ClientAddr;
use crate::daemoncomm::{ClientDataModel, LedCommand};
use crate::ids::MessageId;
use crate::ledcomm;

verus! {

/// What the LEDs report.
#[derive(Debug, Clone, Copy, PartialEq, Eq, Structural)]
pub enum LedEvent {
    Done,
    Error,
}

/// A frame to be computed.
#[derive(Debug, Clone, Copy, PartialEq, Eq, Structural)]
pub struct FrameRequest {
    pub frame_id: u64,
    pub fade_in: bool,
}

/// Who controls the LEDs, and the frames on their way to them.
#[derive(Debug)]
pub struct Automation {
    pub clients: ClientSessions,
    pub manual_flag: bool,
    pub pending_fade_in: bool,
    pub manual_started_while_idle: bool,
    pub frame_pipeline: FramePipeline,
    pub messenger: Messenger,
}

/// The model of [`Automation`].
#[verifier::ext_equal]
pub struct Control {
    pub sessions: Sessions,
    /// What running computations take the manual mode to be.
    pub manual_flag: bool,
    /// The next frame from the screen is faded in.
    pub pending_fade_in: bool,
    pub manual_started_while_idle: bool,
    pub pipeline: Pipeline,
    /// Everything sent so far.
    pub sent: Seq<Message>,
}

pub open spec fn fade_out() -> Message {
    Message::Led(LedCommand::FadeOut { duration_ms: None })
}

impl Control {
    /// The frame that a report of the LEDs confirms, and its start.
    pub open spec fn frame_confirmed(self, event: LedEvent) -> Option<(u64, u64)> {
        if event == LedEvent::Done && !self.sessions.manual && self.pipeline.inflight.len() > 0 {
            Some(self.pipeline.inflight[0])
        } else {
            None
        }
    }

    pub open spec fn sending(self, messages: Seq<Message>) -> Control {
        Control { sent: self.sent + messages, ..self }
    }

    /// Nothing has happened yet.
    pub open spec fn is_new(self) -> bool {
        &&& self.sessions == Sessions::empty()
        &&& !self.manual_flag
        &&& !self.pending_fade_in
        &&& !self.manual_started_while_idle
        &&& self.pipeline.last_auto_frame@ == ledcomm::dark(300)
        &&& self.pipeline.next_id == 0
        &&& self.pipeline.starts == Map::<u64, u64>::empty()
        &&& self.pipeline.inflight == Seq::<(u64, u64)>::empty()
        &&& self.sent == Seq::<Message>::empty()
    }

    /// The manual flag is what the sessions say.
    pub open spec fn wf(self) -> bool {
        self.manual_flag == self.sessions.manual
    }

    /// Puts the last frame of the screen back.
    pub open spec fn restore(self) -> Message {
        Message::Led(LedCommand::SetStripState(self.pipeline.last_auto_frame))
    }

    /// After the manual mode was switched.
    pub open spec fn manual_switched(self, idle: bool, enabled: bool) -> Control {
        let switched = Control {
            manual_flag: enabled,
            pending_fade_in: !enabled && idle,
            manual_started_while_idle: enabled && idle,
            ..self
        };
        if enabled {
            switched
        } else if !idle {
            switched.sending(seq![self.restore(), Message::ComputeDone])
        } else if self.manual_started_while_idle {
            switched.sending(seq![fade_out()])
        } else {
            switched.sending(seq![self.restore(), fade_out()])
        }
    }

    /// After a client asked for the manual mode or gave it up.
    pub open spec fn manual_requested(
        self,
        idle: bool,
        addr: ClientAddr,
        id: MessageId,
        enabled: bool,
    ) -> Control {
        let set = Control { sessions: self.sessions.with_manual(enabled), ..self };
        let switched = if self.sessions.manual == enabled {
            set
        } else {
            set.manual_switched(idle, enabled)
        };
        switched.sending(
            seq![
                messaging::reply(addr, id, ClientDataModel::ManualMode { enabled }),
                messaging::ack(addr, id),
            ],
        )
    }

    /// After a client left.
    pub open spec fn disconnected(self, idle: bool, addr: ClientAddr) -> Control {
        let removed = Control { sessions: self.sessions.removed(addr), ..self };
        if self.sessions.abandons_manual(addr) {
            removed.manual_switched(idle, false)
        } else {
            removed
        }
    }

    /// After a client sent a command for the LEDs, which is obeyed in manual mode
    /// only.
    pub open spec fn led_requested(
        self,
        addr: ClientAddr,
        id: MessageId,
        command: LedCommand,
    ) -> Control {
        if self.sessions.manual {
            self.sending(seq![messaging::ack(addr, id), Message::Led(command)])
        } else {
            self.sending(seq![messaging::nack(addr, id, "manual_mode_disabled"@)])
        }
    }

    /// After a client asked whether the manual mode is on.
    pub open spec fn manual_queried(self, addr: ClientAddr, id: MessageId) -> Control {
        self.sending(
            seq![
                messaging::reply(
                    addr,
                    id,
                    ClientDataModel::ManualMode { enabled: self.sessions.manual },
                ),
                messaging::ack(addr, id),
            ],
        )
    }

    /// Whether a frame of the screen is to be shown.
    pub open spec fn shows_frames(self, idle: bool) -> bool {
        !idle && !self.sessions.manual
    }

    /// After the screen has a frame ready: the frame to be computed, if it is to be shown.
    pub open spec fn frame_asked(self, idle: bool) -> (Control, Option<FrameRequest>) {
        if self.shows_frames(idle) {
            (
                self.frame_numbered(),
                Some(
                    FrameRequest {
                        frame_id: self.pipeline.next_id,
                        fade_in: self.pending_fade_in,
                    },
                ),
            )
        } else {
            (self, None)
        }
    }

    /// After a frame got its identifier.
    pub open spec fn frame_numbered(self) -> Control {
        Control {
            pipeline: Pipeline {
                next_id: ((self.pipeline.next_id + 1) % 0x1_0000_0000_0000_0000) as u64,
                ..self.pipeline
            },
            ..self
        }
    }

    /// After a frame's computation was started.
    pub open spec fn frame_started(self, request: FrameRequest, now: u64) -> Control {
        Control {
            pending_fade_in: self.pending_fade_in && !request.fade_in,
            pipeline: self.pipeline.started(request.frame_id, now),
            ..self
        }
    }

    /// After the seat started to count as idle.
    pub open spec fn idle_entered(self) -> Control {
        if self.sessions.manual {
            self
        } else {
            self.sending(seq![fade_out()])
        }
    }

    /// After the seat stopped to count as idle.
    pub open spec fn idle_left(self) -> Control {
        Control {
            manual_started_while_idle: self.manual_started_while_idle && !self.sessions.manual,
            pending_fade_in: self.pending_fade_in || !self.sessions.manual,
            ..self
        }.sending(seq![Message::ComputeDone])
    }

    /// After the LEDs reported: in manual mode no frame was meant.
    pub open spec fn led_reported(self, event: LedEvent) -> Control {
        if event == LedEvent::Done && !self.sessions.manual {
            Control { pipeline: self.pipeline.completed(), ..self }
        } else {
            self
        }
    }
}

impl View for Automation {
    type V = Control;

    open spec fn view(&self) -> Control {
        Control {
            sessions: self.clients@,
            manual_flag: self.manual_flag,
            pending_fade_in: self.pending_fade_in,
            manual_started_while_idle: self.manual_started_while_idle,
            pipeline: self.frame_pipeline@,
            sent: self.messenger@,
        }
    }
}

impl Automation {
    pub fn new() -> (automation: Self)
        ensures
            automation@.is_new(),
    {
        Automation {
            clients: ClientSessions::new(),
            manual_flag: false,
            pending_fade_in: false,
            manual_started_while_idle: false,
            frame_pipeline: FramePipeline::new(),
            messenger: Messenger::new(),
        }
    }

    pub fn on_manual_state_changed(&mut self, idle: bool, enabled: bool)
        ensures
            final(self)@ == old(self)@.manual_switched(idle, enabled),
    {
        let ghost before = self@;
        self.manual_flag = enabled;
        if enabled {
            self.pending_fade_in = false;
            self.manual_started_while_idle = idle;
            return;
        }
        if idle {
            self.pending_fade_in = true;
            if !self.manual_started_while_idle {
                self.messenger.send_led_command(
                    LedCommand::SetStripState(self.frame_pipeline.last_frame()),
                );
            }
            self.messenger.send_led_command(LedCommand::FadeOut { duration_ms: None });
        } else {
            self.pending_fade_in = false;
            self.messenger.send_led_command(
                LedCommand::SetStripState(self.frame_pipeline.last_frame()),
            );
            self.resume_frame_pipeline();
        }
        self.manual_started_while_idle = false;
        assert(self@ =~= before.manual_switched(idle, enabled));
    }

    /// Lets the screen deliver the next frame.
    pub fn resume_frame_pipeline(&mut self)
        ensures
            final(self)@ == (Control {
                sent: old(self)@.sent.push(Message::ComputeDone),
                ..old(self)@
            }),
    {
        self.messenger.push(Outgoing::ComputeDone);
    }

    pub fn register_client(&mut self, addr: ClientAddr) -> (added: bool)
        ensures
            final(self)@ == (Control {
                sessions: old(self)@.sessions.registered(addr),
                ..old(self)@
            }),
            added == !old(self)@.sessions.clients.contains(addr),
    {
        self.clients.register(addr)
    }

    pub fn handle_client_disconnect(&mut self, idle: bool, addr: ClientAddr) -> (outcome:
        DisconnectOutcome)
        ensures
            final(self)@ == old(self)@.disconnected(idle, addr),
            outcome == old(self)@.sessions.remove_outcome(addr),
    {
        let outcome = self.clients.remove(addr);
        if let DisconnectOutcome::ManualDisabled = outcome {
            self.on_manual_state_changed(idle, false);
        }
        outcome
    }

    pub fn handle_client_led(&mut self, addr: ClientAddr, id: MessageId, command: LedCommand)
        ensures
            final(self)@ == old(self)@.led_requested(addr, id, command),
    {
        let ghost before = self@;
        if !self.clients.manual_enabled() {
            self.messenger.nack(addr, id, "manual_mode_disabled");
        } else {
            self.messenger.ack(addr, id);
            self.messenger.send_led_command(command);
        }
        assert(self@ =~= before.led_requested(addr, id, command));
    }

    pub fn handle_manual_mode_request(
        &mut self,
        idle: bool,
        addr: ClientAddr,
        id: MessageId,
        enabled: bool,
    )
        ensures
            final(self)@ == old(self)@.manual_requested(idle, addr, id, enabled),
    {
        let ghost before = self@;
        let transition = self.clients.set_manual_enabled(enabled);
        if transition.changed() {
            self.on_manual_state_changed(idle, transition.enabled());
        }
        self.messenger.send_manual_state(addr, id, transition.enabled());
        self.messenger.ack(addr, id);
        assert(self@ =~= before.manual_requested(idle, addr, id, enabled));
    }

    pub fn handle_manual_query(&mut self, addr: ClientAddr, id: MessageId)
        ensures
            final(self)@ == old(self)@.manual_queried(addr, id),
    {
        let ghost before = self@;
        let enabled = self.clients.manual_enabled();
        self.messenger.send_manual_state(addr, id, enabled);
        self.messenger.ack(addr, id);
        assert(self@ =~= before.manual_queried(addr, id));
    }

    /// A frame of the screen is ready: what to compute, if it is to be shown.
    pub fn dispatch_frame(&mut self, idle: bool) -> (request: Option<FrameRequest>)
        ensures
            (final(self)@, request) == old(self)@.frame_asked(idle),
            !old(self)@.shows_frames(idle) ==> request is None && *final(self) == *old(self),
    {
        if idle {
            return None;
        }
        if self.clients.manual_enabled() {
            return None;
        }
        let fade_in = self.pending_fade_in;
        let frame_id: u64 = self.frame_pipeline.next_frame_id();
        Some(FrameRequest { frame_id, fade_in })
    }

    /// How starting the computation of a frame went.
    pub fn frame_dispatched(&mut self, request: FrameRequest, accepted: bool, now: u64)
        ensures
            accepted ==> final(self)@ == old(self)@.frame_started(request, now),
            !accepted ==> *final(self) == *old(self),
    {
        if accepted {
            if request.fade_in {
                self.pending_fade_in = false;
            }
            self.frame_pipeline.record_start(request.frame_id, now);
        }
    }

    pub fn on_enter_idle(&mut self)
        ensures
            final(self)@ == old(self)@.idle_entered(),
    {
        let ghost before = self@;
        if !self.clients.manual_enabled() {
            self.messenger.send_led_command(LedCommand::FadeOut { duration_ms: None });
        }
        assert(self@ =~= before.idle_entered());
    }

    pub fn on_exit_idle(&mut self)
        ensures
            final(self)@ == old(self)@.idle_left(),
    {
        let ghost before = self@;
        if self.clients.manual_enabled() {
            self.manual_started_while_idle = false;
        } else {
            self.pending_fade_in = true;
        }
        self.resume_frame_pipeline();
        assert(self@ =~= before.idle_left());
    }

    /// Takes in what the LEDs report: the frame that is complete, if one is.
    pub fn handle_led_event(&mut self, event: LedEvent) -> (completed: Option<(u64, u64)>)
        ensures
            final(self)@ == old(self)@.led_reported(event),
            completed == old(self)@.frame_confirmed(event),
    {
        match event {
            LedEvent::Done => {
                if self.clients.manual_enabled() {
                    None
                } else {
                    self.frame_pipeline.log_completion()
                }
            },
            LedEvent::Error => None,
        }
    }

    pub fn handle_frame_stage(&mut self, stage: FrameStage) -> (skipped_start: Option<u64>)
        ensures
            final(self)@ == (Control {
                pipeline: old(self)@.pipeline.after(stage),
                ..old(self)@
            }),
            skipped_start == old(self)@.pipeline.skipped_start(stage),
    {
        self.frame_pipeline.handle_stage(stage)
    }
}

/// The flag that running computations see follows the sessions through everything
/// that can switch the manual mode.
pub proof fn manual_flag_follows_sessions(
    control: Control,
    idle: bool,
    addr: ClientAddr,
    id: MessageId,
    enabled: bool,
)
    requires
        control.wf(),
    ensures
        control.manual_requested(idle, addr, id, enabled).wf(),
        control.disconnected(idle, addr).wf(),
        control.manual_requested(idle, addr, id, enabled).sessions.manual == enabled,
{
}

/// An LED command is passed on exactly in manual mode, and it is answered once:
/// acknowledged if it was passed on, refused otherwise.
pub proof fn led_command_needs_manual_mode(
    control: Control,
    addr: ClientAddr,
    id: MessageId,
    command: LedCommand,
)
    ensures
        control.led_requested(addr, id, command).sent.len() == control.sent.len() + (if control.sessions.manual {
            2int
        } else {
            1
        }),
        control.led_requested(addr, id, command).sent[control.sent.len() as int] == (if control.sessions.manual {
            messaging::ack(addr, id)
        } else {
            messaging::nack(addr, id, "manual_mode_disabled"@)
        }),
        control.sessions.manual ==> control.led_requested(addr, id, command).sent.last()
            == Message::Led(command),
{
}

/// Switching the manual mode on and off again while the seat is in use puts the
/// last frame of the screen back and lets the next one come; nothing else changes.
pub proof fn manual_mode_hands_back(control: Control)
    requires
        !control.pending_fade_in,
        !control.manual_started_while_idle,
        !control.manual_flag,
    ensures
        control.manual_switched(false, true).manual_switched(false, false) == control.sending(
            seq![control.restore(), Message::ComputeDone],
        ),
{
}

/// A manual mode that began while the seat was idle ends without putting a frame
/// back: the LEDs only fade out.
pub proof fn manual_mode_while_idle_stays_dark(control: Control)
    ensures
        control.manual_switched(true, true).manual_switched(true, false).sent == control.sent.push(
            fade_out(),
        ),
        control.manual_switched(true, true).manual_switched(true, false).pending_fade_in,
{
    assert(control.sent + seq![fade_out()] =~= control.sent.push(fade_out()));
}

/// A fade-in that is due is done once: the frame that asks for it clears it.
pub proof fn fade_in_happens_once(control: Control, now: u64)
    ensures
        ({
            let request = FrameRequest {
                frame_id: control.pipeline.next_id,
                fade_in: control.pending_fade_in,
            };
            !control.frame_numbered().frame_started(request, now).pending_fade_in
        }),
{
}

/// Whether everything in `before` still stands in `after`, and nothing for the LEDs was
/// sent since.
pub open spec fn leaves_leds_alone(before: Seq<Message>, after: Seq<Message>) -> bool {
    &&& before.len() <= after.len()
    &&& after.take(before.len() as int) == before
    &&& forall|i: int| before.len() <= i < after.len() ==> !(#[trigger] after[i] is Led)
}

/// While clients control the LEDs, the seat becoming idle or active sends nothing to
/// them.
pub proof fn idling_leaves_manual_leds_alone(control: Control)
    requires
        control.sessions.manual,
    ensures
        leaves_leds_alone(control.sent, control.idle_entered().sent),
        leaves_leds_alone(control.sent, control.idle_left().sent),
        control.idle_entered().sessions == control.sessions,
        control.idle_left().sessions == control.sessions,
        control.idle_left().pending_fade_in == control.pending_fade_in,
        !control.idle_left().manual_started_while_idle,
{
    assert(control.idle_entered().sent.take(control.sent.len() as int) =~= control.sent);
    assert(control.idle_left().sent.take(control.sent.len() as int) =~= control.sent);
}

/// While the screen controls the LEDs, they are faded out when the seat becomes idle; when
/// it becomes active, the screen is asked for its next frame, which is faded in.
pub proof fn idling_fades_automatic_leds(control: Control)
    requires
        !control.sessions.manual,
    ensures
        control.idle_entered().sent == control.sent.push(
            Message::Led(LedCommand::FadeOut { duration_ms: None }),
        ),
        control.idle_entered() == (Control { sent: control.idle_entered().sent, ..control }),
        control.idle_left().sent == control.sent.push(Message::ComputeDone),
        control.idle_left().pending_fade_in,
        control.idle_left() == (Control {
            sent: control.idle_left().sent,
            pending_fade_in: true,
            ..control
        }),
{
}

/// The last client to leave hands the LEDs back just as giving up the manual mode does,
/// without the answer to a request. At a seat in use the last frame of the screen comes
/// back and the next one is asked for; at an idle seat the LEDs end up fading out, and the
/// frame that comes after that is faded in.
pub proof fn leaving_hands_back_like_giving_up(
    control: Control,
    idle: bool,
    addr: ClientAddr,
    id: MessageId,
)
    requires
        control.sessions.manual,
        control.sessions.clients == set![addr],
    ensures
        ({
            let left = control.disconnected(idle, addr);
            let gave_up = control.manual_requested(idle, addr, id, false);
            let last_frame = Message::Led(
                LedCommand::SetStripState(control.pipeline.last_auto_frame),
            );
            let dark = Message::Led(LedCommand::FadeOut { duration_ms: None });
            &&& gave_up.sent == left.sent.push(
                messaging::reply(addr, id, ClientDataModel::ManualMode { enabled: false }),
            ).push(messaging::reply(addr, id, ClientDataModel::Ack))
            &&& left.pending_fade_in == gave_up.pending_fade_in
            &&& left.manual_started_while_idle == gave_up.manual_started_while_idle
            &&& left.manual_flag == gave_up.manual_flag
            &&& left.pipeline == gave_up.pipeline
            &&& left.pipeline == control.pipeline
            &&& !left.manual_flag
            &&& !left.sessions.manual
            &&& !left.manual_started_while_idle
            &&& left.sessions.clients == Set::<ClientAddr>::empty()
            &&& gave_up.sessions.clients == control.sessions.clients
            &&& left.pending_fade_in == idle
            &&& !idle ==> left.sent == control.sent.push(last_frame).push(Message::ComputeDone)
            &&& idle && control.manual_started_while_idle ==> left.sent == control.sent.push(dark)
            &&& idle && !control.manual_started_while_idle ==> left.sent == control.sent.push(
                last_frame,
            ).push(dark)
        }),
{
    assert(set![addr].remove(addr) =~= Set::<ClientAddr>::empty());
    let left = control.disconnected(idle, addr);
    let gave_up = control.manual_requested(idle, addr, id, false);
    assert(gave_up.sent =~= left.sent.push(
        messaging::reply(addr, id, ClientDataModel::ManualMode { enabled: false }),
    ).push(messaging::reply(addr, id, ClientDataModel::Ack)));
}

/// A client that leaves others behind, or leaves when nobody controls the LEDs, changes
/// nothing but the list of clients.
pub proof fn leaving_others_behind_changes_nothing(
    control: Control,
    idle: bool,
    addr: ClientAddr,
    other: ClientAddr,
)
    requires
        !control.sessions.manual || (control.sessions.clients.contains(other) && other != addr)
            || !control.sessions.clients.contains(addr),
    ensures
        control.disconnected(idle, addr) == (Control {
            sessions: Sessions {
                clients: control.sessions.clients.remove(addr),
                manual: control.sessions.manual,
            },
            ..control
        }),
{
    if control.sessions.clients.contains(other) && other != addr {
        assert(control.sessions.clients.remove(addr).contains(other));
    }
}

/// A client that takes over the LEDs is told so, and nothing is sent to them: they go on
/// showing what they show until the client commands otherwise. It is remembered whether
/// the seat was idle then, and a fade-in that was due is dropped.
pub proof fn taking_over_changes_no_led(
    control: Control,
    idle: bool,
    addr: ClientAddr,
    id: MessageId,
)
    requires
        !control.sessions.manual,
    ensures
        ({
            let taken = control.manual_requested(idle, addr, id, true);
            &&& taken.sent == control.sent.push(
                messaging::reply(addr, id, ClientDataModel::ManualMode { enabled: true }),
            ).push(messaging::reply(addr, id, ClientDataModel::Ack))
            &&& taken.sessions.manual
            &&& taken.manual_flag
            &&& taken.sessions.clients == control.sessions.clients
            &&& taken.manual_started_while_idle == idle
            &&& !taken.pending_fade_in
            &&& taken.pipeline == control.pipeline
            &&& forall|other: bool| !taken.shows_frames(other)
        }),
{
    let taken = control.manual_requested(idle, addr, id, true);
    assert(taken.sent =~= control.sent.push(
        messaging::reply(addr, id, ClientDataModel::ManualMode { enabled: true }),
    ).push(messaging::reply(addr, id, ClientDataModel::Ack)));
}

/// Asking for the mode that is already on changes nothing; it is only answered, just as
/// asking which one it is.
pub proof fn asking_for_current_mode_changes_nothing(
    control: Control,
    idle: bool,
    addr: ClientAddr,
    id: MessageId,
)
    ensures
        ({
            let answered = control.manual_queried(addr, id);
            &&& control.manual_requested(idle, addr, id, control.sessions.manual) == answered
            &&& answered.sent == control.sent.push(
                messaging::reply(
                    addr,
                    id,
                    ClientDataModel::ManualMode { enabled: control.sessions.manual },
                ),
            ).push(messaging::reply(addr, id, ClientDataModel::Ack))
            &&& answered == (Control { sent: answered.sent, ..control })
        }),
{
    let answered = control.manual_queried(addr, id);
    assert(answered.sent =~= control.sent.push(
        messaging::reply(addr, id, ClientDataModel::ManualMode { enabled: control.sessions.manual }),
    ).push(messaging::reply(addr, id, ClientDataModel::Ack)));
    assert(control.sessions.with_manual(control.sessions.manual) =~= control.sessions);
}

/// A frame of the screen is shown exactly when the seat is in use and no client controls
/// the LEDs.
pub proof fn frames_need_active_automatic_seat(control: Control, idle: bool)
    ensures
        control.shows_frames(idle) <==> !(idle || control.sessions.manual),
{
}

/// Frames are numbered one after the other. A frame that is faded in ends the wait for a
/// fade-in; any other leaves it as it is, and starting a frame sends nothing.
pub proof fn frames_are_numbered_in_order(control: Control, request: FrameRequest, now: u64)
    ensures
        control.pipeline.next_id < u64::MAX ==> control.frame_numbered().pipeline.next_id
            == control.pipeline.next_id + 1,
        control.pipeline.next_id == u64::MAX ==> control.frame_numbered().pipeline.next_id == 0,
        control.frame_numbered().sent == control.sent,
        control.frame_numbered().pending_fade_in == control.pending_fade_in,
        control.frame_started(request, now).sent == control.sent,
        control.frame_started(request, now).pipeline.starts[request.frame_id] == now,
        control.frame_started(request, now).pipeline.inflight == control.pipeline.inflight,
        control.frame_started(request, now).pipeline.next_id == control.pipeline.next_id,
        !request.fade_in ==> control.frame_started(request, now).pending_fade_in
            == control.pending_fade_in,
        request.fade_in ==> !control.frame_started(request, now).pending_fade_in,
{
}

/// The LEDs being done confirms the oldest frame in flight, and only while the screen
/// controls them; nothing else is changed by what they report.
pub proof fn leds_confirm_oldest_frame(control: Control)
    ensures
        control.led_reported(LedEvent::Error) == control,
        control.sessions.manual ==> control.led_reported(LedEvent::Done) == control,
        !control.sessions.manual && control.pipeline.inflight.len() > 0 ==> {
            let after = control.led_reported(LedEvent::Done);
            &&& seq![control.pipeline.inflight[0]] + after.pipeline.inflight
                == control.pipeline.inflight
            &&& after.sent == control.sent
            &&& after.pipeline.starts == control.pipeline.starts
            &&& after.pipeline.last_auto_frame == control.pipeline.last_auto_frame
        },
{
    if !control.sessions.manual && control.pipeline.inflight.len() > 0 {
        assert(seq![control.pipeline.inflight[0]] + control.pipeline.inflight.skip(1)
            =~= control.pipeline.inflight);
    }
}

/// A frame is computed only at a seat in use that no client controls; each gets the next
/// number, so that no two in a row have the same. The first one after the seat was idle is
/// faded in, and once its computation has started no later one is, until the seat is idle
/// again.
pub proof fn first_frame_after_idling_is_faded_in(control: Control, now: u64)
    requires
        !control.sessions.manual,
    ensures
        ({
            let back = control.idle_left();
            let (asked, request) = back.frame_asked(false);
            let (again, second) = asked.frame_started(request->Some_0, now).frame_asked(false);
            &&& control.frame_asked(true) == (control, None::<FrameRequest>)
            &&& request is Some
            &&& request->Some_0.fade_in
            &&& request->Some_0.frame_id == control.pipeline.next_id
            &&& second is Some
            &&& !second->Some_0.fade_in
            &&& second->Some_0.frame_id != request->Some_0.frame_id
            &&& asked.frame_asked(false).1->Some_0.fade_in
            &&& asked.sent == back.sent
            &&& again.sent == back.sent
        }),
{
}

/// Clients in control keep the screen's frames away from the LEDs, at any seat.
pub proof fn manual_mode_computes_no_frames(control: Control, idle: bool)
    requires
        control.sessions.manual,
    ensures
        control.frame_asked(idle) == (control, None::<FrameRequest>),
{
}

/// While the screen has the LEDs, their report confirms the oldest frame in flight, which is
/// told just when it is taken off. While a client has them it confirms nothing.
pub proof fn report_confirms_what_is_taken_off(control: Control)
    ensures
        !control.sessions.manual ==> control.frame_confirmed(LedEvent::Done)
            == control.pipeline.next_confirmed(),
        control.sessions.manual ==> control.frame_confirmed(LedEvent::Done) is None,
        control.frame_confirmed(LedEvent::Done) matches Some(frame) ==> seq![frame]
            + control.led_reported(LedEvent::Done).pipeline.inflight == control.pipeline.inflight,
        control.frame_confirmed(LedEvent::Done) is None ==> control.led_reported(
            LedEvent::Done,
        ).pipeline.inflight == control.pipeline.inflight,
{
    if control.frame_confirmed(LedEvent::Done) is Some {
        assert(seq![control.pipeline.inflight[0]] + control.pipeline.inflight.skip(1)
            =~= control.pipeline.inflight);
    }
}

/// Whoever asks for the mode is told what the last request set it to, with an
/// acknowledgement, and asking changes nothing.
pub proof fn mode_is_answered_truly(
    control: Control,
    idle: bool,
    setter: ClientAddr,
    set_id: MessageId,
    enabled: bool,
    addr: ClientAddr,
    id: MessageId,
)
    ensures
        ({
            let set = control.manual_requested(idle, setter, set_id, enabled);
            let asked = set.manual_queried(addr, id);
            &&& asked.sent == set.sent.push(
                Message::Reply { addr, id, data: ClientDataModel::ManualMode { enabled } },
            ).push(Message::Reply { addr, id, data: ClientDataModel::Ack })
            &&& asked == (Control { sent: asked.sent, ..set })
            &&& set.sent.len() >= 2
            &&& set.sent[set.sent.len() - 2] == (Message::Reply {
                addr: setter,
                id: set_id,
                data: ClientDataModel::ManualMode { enabled },
            })
            &&& set.sent.last() == (Message::Reply {
                addr: setter,
                id: set_id,
                data: ClientDataModel::Ack,
            })
        }),
{
    let set = control.manual_requested(idle, setter, set_id, enabled);
    assert(set.manual_queried(addr, id).sent =~= set.sent.push(
        Message::Reply { addr, id, data: ClientDataModel::ManualMode { enabled } },
    ).push(Message::Reply { addr, id, data: ClientDataModel::Ack }));
}

/// A client's command for the LEDs is acknowledged and then sent on unchanged while clients
/// control them; otherwise it is refused with the reason, and nothing is sent on. Either way
/// nothing else changes.
pub proof fn command_is_sent_on_or_refused(
    control: Control,
    addr: ClientAddr,
    id: MessageId,
    command: LedCommand,
)
    ensures
        ({
            let asked = control.led_requested(addr, id, command);
            &&& control.sessions.manual ==> asked.sent == control.sent.push(
                Message::Reply { addr, id, data: ClientDataModel::Ack },
            ).push(Message::Led(command))
            &&& !control.sessions.manual ==> asked.sent == control.sent.push(
                Message::Reply {
                    addr,
                    id,
                    data: ClientDataModel::Nack { reason: "manual_mode_disabled"@ },
                },
            )
            &&& asked == (Control { sent: asked.sent, ..control })
        }),
{
    let asked = control.led_requested(addr, id, command);
    if control.sessions.manual {
        assert(asked.sent =~= control.sent.push(
            Message::Reply { addr, id, data: ClientDataModel::Ack },
        ).push(Message::Led(command)));
    } else {
        assert(asked.sent =~= control.sent.push(
            Message::Reply {
                addr,
                id,
                data: ClientDataModel::Nack { reason: "manual_mode_disabled"@ },
            },
        ));
    }
}

} // verus!
