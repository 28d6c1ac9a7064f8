//! The way of a screen frame from its dispatch to the LEDs.

use vstd::prelude::*;

use std::collections::{HashMap, VecDeque};

use crate::daemoncomm::{LedCommand, LedStripState};
use crate::ledcomm;
use crate::ledcomm::{state_frame_as_bytes_mut, zero_state_frame, StateFrame, STATE_BYTES};
use crate::text::joined;

verus! {

broadcast use vstd::std_specs::hash::group_hash_axioms;

/// What became of a frame after its dispatch.
#[allow(inconsistent_fields)]
#[derive(Debug)]
pub enum FrameStage {
    LedDispatched { frame_id: u64, state: LedStripState },
    Skipped { frame_id: u64, reason: &'static str },
    Aborted { frame_id: u64, reason: String },
}

/// The frames on their way. Times are nanoseconds on the daemon's clock.
#[derive(Debug)]
pub struct FramePipeline {
    pub last_auto_frame: LedStripState,
    frame_counter: u64,
    frame_starts: HashMap<u64, u64>,
    frames_inflight: VecDeque<(u64, u64)>,
}

/// The model of [`FramePipeline`].
#[verifier::ext_equal]
pub struct Pipeline {
    /// The last frame that the screen put on the LEDs.
    pub last_auto_frame: LedStripState,
    /// The identifier of the next frame.
    pub next_id: u64,
    /// When each frame started that has not reached the LEDs.
    pub starts: Map<u64, u64>,
    /// The frames that the LEDs have yet to confirm, oldest first.
    pub inflight: Seq<(u64, u64)>,
}

/// The sequence without its first entry for `id`.
pub open spec fn without_first(s: Seq<(u64, u64)>, id: u64) -> Seq<(u64, u64)>
    decreases s.len(),
{
    if s.len() == 0 {
        s
    } else if s[0].0 == id {
        s.skip(1)
    } else {
        seq![s[0]] + without_first(s.skip(1), id)
    }
}

impl Pipeline {
    pub open spec fn started(self, id: u64, now: u64) -> Pipeline {
        Pipeline { starts: self.starts.insert(id, now), ..self }
    }

    /// The LEDs have taken the frame: it moves from the started to those in flight.
    pub open spec fn dispatched(self, id: u64, state: LedStripState) -> Pipeline {
        Pipeline {
            last_auto_frame: state,
            starts: self.starts.remove(id),
            inflight: if self.starts.contains_key(id) {
                self.inflight.push((id, self.starts[id]))
            } else {
                self.inflight
            },
            ..self
        }
    }

    pub open spec fn skipped(self, id: u64) -> Pipeline {
        Pipeline { starts: self.starts.remove(id), ..self }
    }

    /// The frame is forgotten, wherever it was.
    pub open spec fn aborted(self, id: u64) -> Pipeline {
        if self.starts.contains_key(id) {
            self.skipped(id)
        } else {
            Pipeline { inflight: without_first(self.inflight, id), ..self }
        }
    }

    pub open spec fn after(self, stage: FrameStage) -> Pipeline {
        match stage {
            FrameStage::LedDispatched { frame_id, state } => self.dispatched(frame_id, state),
            FrameStage::Skipped { frame_id, reason } => self.skipped(frame_id),
            FrameStage::Aborted { frame_id, reason } => self.aborted(frame_id),
        }
    }

    /// The start of a frame that was skipped, if it had started.
    pub open spec fn skipped_start(self, stage: FrameStage) -> Option<u64> {
        match stage {
            FrameStage::Skipped { frame_id, reason } if self.starts.contains_key(
                frame_id,
            ) => Some(self.starts[frame_id]),
            _ => None,
        }
    }

    /// The frame that the LEDs confirm next, and its start.
    pub open spec fn next_confirmed(self) -> Option<(u64, u64)> {
        if self.inflight.len() == 0 {
            None
        } else {
            Some(self.inflight[0])
        }
    }

    /// The LEDs have confirmed the oldest frame in flight.
    pub open spec fn completed(self) -> Pipeline {
        if self.inflight.len() == 0 {
            self
        } else {
            Pipeline { inflight: self.inflight.skip(1), ..self }
        }
    }
}

proof fn without_first_removes(s: Seq<(u64, u64)>, id: u64, at: int)
    requires
        0 <= at <= s.len(),
        forall|j: int| 0 <= j < at ==> (#[trigger] s[j]).0 != id,
        at < s.len() ==> s[at].0 == id,
    ensures
        at < s.len() ==> without_first(s, id) == s.remove(at),
        at == s.len() ==> without_first(s, id) == s,
    decreases s.len(),
{
    if s.len() == 0 {
    } else if at == 0 {
        assert(s.skip(1) =~= s.remove(0));
    } else {
        assert(s[0].0 != id);
        let tail = s.skip(1);
        assert forall|j: int| 0 <= j < at - 1 implies (#[trigger] tail[j]).0 != id by {
            assert(tail[j] == s[j + 1]);
        }
        without_first_removes(tail, id, at - 1);
        if at < s.len() {
            assert(seq![s[0]] + tail.remove(at - 1) =~= s.remove(at));
        } else {
            assert(seq![s[0]] + tail =~= s);
        }
    }
}

impl View for FramePipeline {
    type V = Pipeline;

    closed spec fn view(&self) -> Pipeline {
        Pipeline {
            last_auto_frame: self.last_auto_frame,
            next_id: self.frame_counter,
            starts: self.frame_starts@,
            inflight: self.frames_inflight@,
        }
    }
}

impl FramePipeline {
    pub fn new() -> (pipeline: Self)
        ensures
            pipeline@.last_auto_frame@ == ledcomm::dark(300),
            pipeline@.next_id == 0,
            pipeline@.starts == Map::<u64, u64>::empty(),
            pipeline@.inflight == Seq::<(u64, u64)>::empty(),
    {
        FramePipeline {
            last_auto_frame: zero_state_frame(),
            frame_counter: 0,
            frame_starts: HashMap::new(),
            frames_inflight: VecDeque::new(),
        }
    }

    /// The last frame that the screen put on the LEDs.
    pub fn last_frame(&self) -> (state: LedStripState)
        ensures
            state == self@.last_auto_frame,
    {
        self.last_auto_frame
    }

    pub fn next_frame_id(&mut self) -> (id: u64)
        ensures
            id == old(self)@.next_id,
            final(self)@ == (Pipeline {
                next_id: ((old(self)@.next_id + 1) % 0x1_0000_0000_0000_0000) as u64,
                ..old(self)@
            }),
    {
        let id: u64 = self.frame_counter;
        self.frame_counter = self.frame_counter.wrapping_add(1);
        id
    }

    pub fn record_start(&mut self, frame_id: u64, now: u64)
        ensures
            final(self)@ == old(self)@.started(frame_id, now),
    {
        self.frame_starts.insert(frame_id, now);
    }

    /// Takes in what became of a frame. The start of one that was skipped is handed
    /// back.
    pub fn handle_stage(&mut self, stage: FrameStage) -> (skipped_start: Option<u64>)
        ensures
            final(self)@ == old(self)@.after(stage),
            skipped_start == old(self)@.skipped_start(stage),
    {
        let ghost before = self@;
        match stage {
            FrameStage::LedDispatched { frame_id, state } => {
                self.last_auto_frame = state;
                match self.frame_starts.remove(&frame_id) {
                    Some(started_at) => {
                        self.frames_inflight.push_back((frame_id, started_at));
                    },
                    None => {},
                }
                assert(self@ =~= before.after(stage));
                None
            },
            FrameStage::Skipped { frame_id, reason: _ } => {
                let start = self.frame_starts.remove(&frame_id);
                assert(self@ =~= before.after(stage));
                start
            },
            FrameStage::Aborted { frame_id, reason: _ } => {
                if self.frame_starts.remove(&frame_id).is_none() {
                    assert(self.frame_starts@ =~= before.starts);
                    let at: usize = self.position(frame_id);
                    proof {
                        without_first_removes(self.frames_inflight@, frame_id, at as int);
                    }
                    if at < self.frames_inflight.len() {
                        let _ = self.frames_inflight.remove(at);
                    }
                }
                assert(self@ =~= before.after(stage));
                None
            },
        }
    }

    /// Where the first entry in flight for `frame_id` stands, or the number of
    /// entries if there is none.
    fn position(&self, frame_id: u64) -> (at: usize)
        ensures
            at <= self@.inflight.len(),
            forall|j: int| 0 <= j < at ==> (#[trigger] self@.inflight[j]).0 != frame_id,
            at < self@.inflight.len() ==> self@.inflight[at as int].0 == frame_id,
    {
        let mut i: usize = 0;
        while i < self.frames_inflight.len()
            invariant
                i <= self.frames_inflight@.len(),
                forall|j: int| 0 <= j < i ==> (#[trigger] self.frames_inflight@[j]).0 != frame_id,
            decreases self.frames_inflight.len() - i,
        {
            if self.frames_inflight[i].0 == frame_id {
                return i;
            }
            i += 1;
        }
        i
    }

    /// The LEDs are done with a frame: the oldest in flight, with its start, which is
    /// handed back for timing.
    pub fn log_completion(&mut self) -> (frame: Option<(u64, u64)>)
        ensures
            final(self)@ == old(self)@.completed(),
            frame == old(self)@.next_confirmed(),
    {
        let ghost before = self@;
        let frame = self.frames_inflight.pop_front();
        assert(self@ =~= before.completed());
        frame
    }
}

impl Default for FramePipeline {
    fn default() -> (pipeline: Self)
        ensures
            pipeline@.last_auto_frame@ == ledcomm::dark(300),
            pipeline@.next_id == 0,
            pipeline@.starts == Map::<u64, u64>::empty(),
            pipeline@.inflight == Seq::<(u64, u64)>::empty(),
    {
        FramePipeline::new()
    }
}

/// A frame that never reaches the LEDs leaves nothing behind.
pub proof fn lost_frame_leaves_no_trace(pipeline: Pipeline, id: u64, now: u64)
    requires
        !pipeline.starts.contains_key(id),
    ensures
        pipeline.started(id, now).skipped(id) == pipeline,
        pipeline.started(id, now).aborted(id) == pipeline,
{
    assert(pipeline.starts.insert(id, now).remove(id) =~= pipeline.starts);
}

/// A frame that reaches the LEDs and is confirmed leaves only its colours.
pub proof fn shown_frame_leaves_its_colours(
    pipeline: Pipeline,
    id: u64,
    now: u64,
    state: LedStripState,
)
    requires
        !pipeline.starts.contains_key(id),
        pipeline.inflight.len() == 0,
    ensures
        pipeline.started(id, now).dispatched(id, state).inflight == seq![(id, now)],
        pipeline.started(id, now).dispatched(id, state).completed() == (Pipeline {
            last_auto_frame: state,
            ..pipeline
        }),
{
    let after = pipeline.started(id, now).dispatched(id, state);
    assert(after.inflight =~= seq![(id, now)]);
    assert(after.starts =~= pipeline.starts);
    assert(after.completed().inflight =~= pipeline.inflight);
}

/// Frames are confirmed in the order in which they reached the LEDs.
pub proof fn frames_complete_in_order(pipeline: Pipeline, id: u64, state: LedStripState)
    requires
        pipeline.starts.contains_key(id),
        pipeline.inflight.len() > 0,
    ensures
        pipeline.dispatched(id, state).inflight[0] == pipeline.inflight[0],
        pipeline.dispatched(id, state).completed() == pipeline.completed().dispatched(id, state),
{
    assert(pipeline.dispatched(id, state).completed().inflight =~= pipeline.completed().dispatched(
        id,
        state,
    ).inflight);
}

proof fn without_first_is_no_longer(s: Seq<(u64, u64)>, id: u64)
    ensures
        without_first(s, id).len() <= s.len(),
    decreases s.len(),
{
    if s.len() > 0 && s[0].0 != id {
        without_first_is_no_longer(s.skip(1), id);
    }
}

/// The frame that a stage is about.
pub open spec fn stage_frame(stage: FrameStage) -> u64 {
    match stage {
        FrameStage::LedDispatched { frame_id, state } => frame_id,
        FrameStage::Skipped { frame_id, reason } => frame_id,
        FrameStage::Aborted { frame_id, reason } => frame_id,
    }
}

/// Whatever becomes of a frame, it is no longer among the started, nothing is tracked
/// twice or invented, and the frames to come keep their identifiers. Only a frame that
/// the LEDs took changes what they last showed, and a skipped one leaves those in flight
/// alone.
pub proof fn stages_track_no_more_frames(pipeline: Pipeline, stage: FrameStage)
    requires
        pipeline.starts.dom().finite(),
    ensures
        pipeline.after(stage).starts.dom().finite(),
        pipeline.after(stage).starts == pipeline.starts.remove(stage_frame(stage)),
        pipeline.after(stage).starts.len() + pipeline.after(stage).inflight.len()
            <= pipeline.starts.len() + pipeline.inflight.len(),
        pipeline.after(stage).next_id == pipeline.next_id,
        !(stage is LedDispatched) ==> pipeline.after(stage).last_auto_frame
            == pipeline.last_auto_frame,
        stage is Skipped ==> pipeline.after(stage).inflight == pipeline.inflight,
{
    let id = stage_frame(stage);
    without_first_is_no_longer(pipeline.inflight, id);
    assert(pipeline.starts.remove(id).dom() =~= pipeline.starts.dom().remove(id));
    if !pipeline.starts.contains_key(id) {
        assert(pipeline.starts.remove(id) =~= pipeline.starts);
    }
}

/// Only finitely many frames are started at any time.
pub proof fn started_frames_are_finite(pipeline: &FramePipeline)
    ensures
        pipeline@.starts.dom().finite(),
{
}

/// How the computation of a frame ended.
#[derive(Debug)]
pub enum ComputeOutcome {
    /// With colours for the LEDs, channel by channel.
    Colors(Vec<u8>),
    /// Without any pixels.
    NoPixels,
    /// Not at all.
    Closed(String),
}

/// What is done with the outcome.
#[derive(Debug)]
pub struct ComputeStep {
    /// A command for the LEDs, to be sent first.
    pub led: Option<LedCommand>,
    /// The frame that the command shows, if whether it was taken has to be recorded.
    pub shown: Option<LedStripState>,
    /// What to record.
    pub stage: Option<FrameStage>,
    /// Whether the screen may deliver the next frame.
    pub compute_done: bool,
}

impl ComputeStep {
    /// Whether this is what the outcome of a frame's computation leads to.
    pub open spec fn decides(
        self,
        outcome: ComputeOutcome,
        frame_id: u64,
        idle: bool,
        manual: bool,
        fade_in: bool,
    ) -> bool {
        match outcome {
            ComputeOutcome::Colors(colors) => {
                &&& self.stage is None
                &&& self.compute_done
                &&& if idle {
                    &&& self.led matches Some(LedCommand::SetStaticColor(color)) && color@ == seq![
                        0u8,
                        0u8,
                        0u8,
                    ]
                    &&& self.shown is None
                } else if manual {
                    self.led is None && self.shown is None
                } else {
                    &&& self.shown matches Some(state) && ledcomm::pixel_bytes(state@)
                        == colors@.take(STATE_BYTES as int)
                    &&& self.led == Some(
                        if fade_in {
                            LedCommand::FadeIn { state: self.shown->Some_0, duration_ms: None }
                        } else {
                            LedCommand::SetStripState(self.shown->Some_0)
                        },
                    )
                }
            },
            ComputeOutcome::NoPixels => {
                &&& self.led is None
                &&& self.shown is None
                &&& self.compute_done
                &&& self.stage matches Some(FrameStage::Skipped { frame_id: id, reason }) && id
                    == frame_id && reason@ == "empty_compute_result"@
            },
            ComputeOutcome::Closed(err) => {
                &&& self.led is None
                &&& self.shown is None
                &&& !self.compute_done
                &&& self.stage matches Some(FrameStage::Aborted { frame_id: id, reason }) && id
                    == frame_id && reason@ == "compute channel closed: "@ + err@
            },
        }
    }
}

/// The strip state with these channels.
pub fn strip_from_colors(colors: &[u8]) -> (state: StateFrame)
    requires
        colors@.len() >= STATE_BYTES,
    ensures
        ledcomm::pixel_bytes(state@) == colors@.take(STATE_BYTES as int),
{
    let mut state = zero_state_frame();
    let flat = state_frame_as_bytes_mut(&mut state);
    let mut i: usize = 0;
    while i < STATE_BYTES
        invariant
            i <= STATE_BYTES,
            colors@.len() >= STATE_BYTES,
            flat@.len() == STATE_BYTES,
            forall|j: int| 0 <= j < i ==> flat@[j] == colors@[j],
        decreases STATE_BYTES - i,
    {
        flat[i] = colors[i];
        i += 1;
    }
    assert(ledcomm::pixel_bytes(state@) =~= colors@.take(STATE_BYTES as int));
    state
}

/// Decides what the outcome of a frame's computation leads to. While the seat is
/// idle the LEDs are kept dark; in manual mode they are left alone; otherwise they
/// show the colours, fading in if that was asked for.
pub fn await_compute_dispatch(
    outcome: ComputeOutcome,
    frame_id: u64,
    idle: bool,
    manual: bool,
    fade_in: bool,
) -> (step: ComputeStep)
    requires
        outcome matches ComputeOutcome::Colors(colors) ==> !idle && !manual ==> colors@.len()
            >= STATE_BYTES,
    ensures
        step.decides(outcome, frame_id, idle, manual, fade_in),
{
    match outcome {
        ComputeOutcome::Colors(colors) => {
            if idle {
                let black: [u8; 3] = [0, 0, 0];
                assert(black@ =~= seq![0u8, 0u8, 0u8]);
                ComputeStep {
                    led: Some(LedCommand::SetStaticColor(black)),
                    shown: None,
                    stage: None,
                    compute_done: true,
                }
            } else if manual {
                ComputeStep { led: None, shown: None, stage: None, compute_done: true }
            } else {
                let state = strip_from_colors(colors.as_slice());
                let command = if fade_in {
                    LedCommand::FadeIn { state, duration_ms: None }
                } else {
                    LedCommand::SetStripState(state)
                };
                ComputeStep {
                    led: Some(command),
                    shown: Some(state),
                    stage: None,
                    compute_done: true,
                }
            }
        },
        ComputeOutcome::NoPixels => ComputeStep {
            led: None,
            shown: None,
            stage: Some(FrameStage::Skipped { frame_id, reason: "empty_compute_result" }),
            compute_done: true,
        },
        ComputeOutcome::Closed(err) => ComputeStep {
            led: None,
            shown: None,
            stage: Some(
                FrameStage::Aborted {
                    frame_id,
                    reason: joined("compute channel closed: ", err.as_str()),
                },
            ),
            compute_done: false,
        },
    }
}

/// What to record once the command that shows a frame was sent, or could not be.
pub fn led_command_sent(frame_id: u64, state: LedStripState, result: Result<(), String>) -> (stage:
    FrameStage)
    ensures
        match result {
            Ok(()) => stage == (FrameStage::LedDispatched { frame_id, state }),
            Err(err) => stage matches FrameStage::Aborted { frame_id: id, reason } && id == frame_id
                && reason@ == "failed to send LED command: "@ + err@,
        },
{
    match result {
        Ok(()) => FrameStage::LedDispatched { frame_id, state },
        Err(err) => FrameStage::Aborted {
            frame_id,
            reason: joined("failed to send LED command: ", err.as_str()),
        },
    }
}

/// Colours that come at a seat in use which no client controls are shown LED by LED, red,
/// green and blue in turn: faded in where that is due, at once otherwise. The frame that
/// counts as shown is the one that is sent.
pub proof fn colors_are_shown_in_order(
    step: ComputeStep,
    colors: Vec<u8>,
    frame_id: u64,
    fade_in: bool,
    led: int,
    channel: int,
)
    requires
        colors@.len() >= 900,
        step.decides(ComputeOutcome::Colors(colors), frame_id, false, false, fade_in),
        0 <= led < 300,
        0 <= channel < 3,
    ensures
        step.shown is Some,
        step.shown->Some_0@[led]@[channel] == colors@[3 * led + channel],
        fade_in ==> step.led == Some(
            LedCommand::FadeIn { state: step.shown->Some_0, duration_ms: None },
        ),
        !fade_in ==> step.led == Some(LedCommand::SetStripState(step.shown->Some_0)),
        step.compute_done,
        step.stage is None,
{
    let state = step.shown->Some_0;
    let i = 3 * led + channel;
    assert(i / 3 == led && i % 3 == channel);
    assert(ledcomm::pixel_bytes(state@)[i] == state@[led][channel]);
    assert(ledcomm::pixel_bytes(state@)[i] == colors@.take(STATE_BYTES as int)[i]);
}

/// At an idle seat nothing but darkness is sent, under a client's control nothing at all, and
/// neither counts as shown; where no colours came nothing is sent either.
pub proof fn colors_are_kept_from_leds(
    step: ComputeStep,
    outcome: ComputeOutcome,
    frame_id: u64,
    idle: bool,
    manual: bool,
    fade_in: bool,
)
    requires
        idle || manual || !(outcome is Colors),
        step.decides(outcome, frame_id, idle, manual, fade_in),
    ensures
        step.shown is None,
        step.led is Some <==> idle && outcome is Colors,
        step.led matches Some(command) ==> command matches LedCommand::SetStaticColor(color)
            && color@ == seq![0u8, 0u8, 0u8],
{
}

/// The screen may go on whenever its frame was computed; a frame that gave no colours is
/// recorded as skipped, and one whose computation got lost as aborted, under its number.
pub proof fn screen_goes_on_after_computation(
    step: ComputeStep,
    outcome: ComputeOutcome,
    frame_id: u64,
    idle: bool,
    manual: bool,
    fade_in: bool,
)
    requires
        step.decides(outcome, frame_id, idle, manual, fade_in),
    ensures
        step.compute_done <==> !(outcome is Closed),
        outcome is Colors ==> step.stage is None,
        outcome is NoPixels ==> step.stage is Some && step.stage->Some_0 is Skipped
            && stage_frame(step.stage->Some_0) == frame_id,
        outcome is Closed ==> step.stage is Some && step.stage->Some_0 is Aborted
            && stage_frame(step.stage->Some_0) == frame_id,
{
}

/// An aborted frame is forgotten wherever it was, and no other frame is: the others keep
/// their starts and their order.
pub proof fn aborted_frame_is_forgotten(pipeline: Pipeline, id: u64, other: u64)
    requires
        other != id,
        forall|i: int, j: int|
            0 <= i < j < pipeline.inflight.len() ==> (#[trigger] pipeline.inflight[i]).0
                != (#[trigger] pipeline.inflight[j]).0,
        pipeline.starts.contains_key(id) ==> forall|i: int|
            0 <= i < pipeline.inflight.len() ==> (#[trigger] pipeline.inflight[i]).0 != id,
    ensures
        ({
            let after = pipeline.aborted(id);
            &&& !after.starts.contains_key(id)
            &&& forall|i: int| 0 <= i < after.inflight.len() ==> (#[trigger] after.inflight[i]).0 != id
            &&& after.starts.contains_key(other) == pipeline.starts.contains_key(other)
            &&& pipeline.starts.contains_key(other) ==> after.starts[other]
                == pipeline.starts[other]
            &&& forall|started: u64|
                pipeline.inflight.contains((other, started)) ==> #[trigger] after.inflight.contains(
                    (other, started),
                )
            &&& after.last_auto_frame == pipeline.last_auto_frame
        }),
{
    let s = pipeline.inflight;
    if !pipeline.starts.contains_key(id) {
        if exists|at: int| 0 <= at < s.len() && (#[trigger] s[at]).0 == id {
            let at = choose|at: int| 0 <= at < s.len() && (#[trigger] s[at]).0 == id;
            without_first_removes(s, id, at);
            let r = s.remove(at);
            assert forall|i: int| 0 <= i < r.len() implies (#[trigger] r[i]).0 != id by {
                if i < at {
                    assert(r[i] == s[i]);
                } else {
                    assert(r[i] == s[i + 1]);
                }
            }
            assert forall|started: u64| s.contains((other, started)) implies #[trigger] r.contains(
                (other, started),
            ) by {
                let k = choose|k: int| 0 <= k < s.len() && s[k] == (other, started);
                if k < at {
                    assert(r[k] == s[k]);
                } else {
                    assert(r[k - 1] == s[k]);
                }
            }
        } else {
            without_first_removes(s, id, s.len() as int);
        }
    }
}

/// A frame that the LEDs took is in flight behind those before it, with the moment it
/// started, and is what they show; one that nobody started changes only that.
pub proof fn dispatched_frame_is_in_flight(pipeline: Pipeline, id: u64, state: LedStripState)
    ensures
        ({
            let after = pipeline.dispatched(id, state);
            &&& after.last_auto_frame == state
            &&& !after.starts.contains_key(id)
            &&& pipeline.starts.contains_key(id) ==> after.inflight == pipeline.inflight.push(
                (id, pipeline.starts[id]),
            )
            &&& !pipeline.starts.contains_key(id) ==> after.inflight == pipeline.inflight
            &&& after.next_id == pipeline.next_id
        }),
{
}

/// A frame that is skipped is told with the time it started at; one that reached the LEDs is
/// told with that time when they confirm it.
pub proof fn frames_are_told_with_their_start(
    pipeline: Pipeline,
    id: u64,
    now: u64,
    reason: &'static str,
    state: LedStripState,
)
    ensures
        pipeline.started(id, now).skipped_start(FrameStage::Skipped { frame_id: id, reason })
            == Some(now),
        pipeline.started(id, now).skipped_start(FrameStage::LedDispatched { frame_id: id, state })
            is None,
        pipeline.inflight.len() == 0 ==> pipeline.next_confirmed() is None,
        pipeline.inflight.len() == 0 ==> pipeline.started(id, now).dispatched(
            id,
            state,
        ).next_confirmed() == Some((id, now)),
        pipeline.inflight.len() > 0 ==> pipeline.started(id, now).dispatched(
            id,
            state,
        ).next_confirmed() == pipeline.next_confirmed() && pipeline.next_confirmed() is Some,
        !pipeline.starts.contains_key(id) ==> pipeline.skipped_start(
            FrameStage::Skipped { frame_id: id, reason },
        ) is None,
{
}

} // verus!
