//! The LED manager: obeys commands and draws animations.

use vstd::prelude::*;

use crate::daemoncomm::{Color, LedCommand, LedStripState};
use crate::led::effects::{
    AnimationKind, AnimationState, AnimationStatus, BreathingState, FadeKind, FadeState,
    RainbowState,
};
use crate::led::effects::{
    BREATHING_TICK_MS, DEFAULT_FADE_IN_MS, DEFAULT_FADE_OUT_MS, FADE_TICK_MS, RAINBOW_TICK_MS,
};
use crate::led::share::Share;
use crate::ledcomm;
use crate::ledcomm::{zero_state_frame, StateFrame, NUM_LEDS};

pub mod effects;
pub mod esp32;
pub mod hsv;
pub mod mystic;
pub mod progress;
pub mod samples;
pub mod share;
pub mod strip;

verus! {

/// What became of drawing the next frame of an animation.
#[derive(Debug, Clone, Copy, PartialEq, Eq, Structural)]
pub enum AnimationStep {
    /// There is no animation.
    Idle,
    /// The frame is drawn; send it.
    Drawn,
    /// The frame is drawn and the last one; send it.
    DrawnLast,
}

/// The LEDs as they are shown, and what moves them.
#[derive(Debug, Clone, Copy)]
pub struct LedManager {
    pub animation: Option<AnimationState>,
    pub current_frame: LedStripState,
}

/// Whether every pixel has this colour.
pub open spec fn filled(frame: StateFrame, color: Color) -> bool {
    forall|i: int| 0 <= i < NUM_LEDS ==> #[trigger] frame@[i] == color
}

/// The duration of a fade: the one that was asked for, or the usual one.
pub open spec fn duration_or(duration_ms: Option<u64>, usual: u64) -> u64 {
    match duration_ms {
        Some(ms) => ms,
        None => usual,
    }
}

impl LedManager {
    /// Whether these are the LEDs after the next frame of the animation was drawn.
    pub open spec fn steps(
        self,
        brightness: Share,
        now: u64,
        after: LedManager,
        step: AnimationStep,
    ) -> bool {
        match self.animation {
            None => step == AnimationStep::Idle && after == self,
            Some(animation) => {
                &&& animation.draws(after.current_frame, brightness, now)
                &&& if animation.ends(now) {
                    &&& step == AnimationStep::DrawnLast
                    &&& after.animation == Some(animation.moved_on())
                } else {
                    &&& step == AnimationStep::Drawn
                    &&& after.animation == Some(
                        AnimationState {
                            next_tick: (now + animation.interval) as u128,
                            ..animation.moved_on()
                        },
                    )
                }
            },
        }
    }

    /// The LEDs once a frame was sent, or could not be.
    pub open spec fn after_sending(self, sent: bool, last: bool) -> LedManager {
        LedManager {
            animation: if !sent || last {
                None
            } else {
                self.animation
            },
            ..self
        }
    }

    /// Whether a fade-in runs, which takes the next frame as its target.
    pub open spec fn fading_in(&self) -> bool {
        self.animation matches Some(AnimationState {
            kind: AnimationKind::Fade(fade),
            interval,
            next_tick,
        }) && fade.kind == FadeKind::In
    }

    pub open spec fn dark(&self) -> bool {
        self.current_frame@ == ledcomm::dark(300)
    }

    pub open spec fn wf(&self) -> bool {
        self.animation matches Some(animation) ==> animation.wf()
    }

    /// The manager after a command, and whether its frame has to be sent.
    pub open spec fn obeys(self, command: LedCommand, now: u64, after: LedManager, send: bool) -> bool {
        match command {
            LedCommand::SetStaticColor(color) => {
                &&& send
                &&& after.animation is None
                &&& filled(after.current_frame, color)
            },
            LedCommand::SetStripState(state) => if self.fading_in() {
                &&& !send
                &&& after.current_frame == self.current_frame
                &&& after.animation == Some(
                    AnimationState {
                        kind: AnimationKind::Fade(
                            self.animation->Some_0.kind->Fade_0.retargeted(
                                self.current_frame,
                                state,
                                now,
                            ),
                        ),
                        ..self.animation->Some_0
                    },
                )
            } else {
                &&& send
                &&& after.animation is None
                &&& after.current_frame == state
            },
            LedCommand::FadeIn { state, duration_ms } => {
                &&& !send
                &&& after.dark()
                &&& after.fades(FadeKind::In, duration_or(duration_ms, DEFAULT_FADE_IN_MS), now)
                &&& after.animation->Some_0.kind->Fade_0.start@ == ledcomm::dark(300)
                &&& after.animation->Some_0.kind->Fade_0.target == state
            },
            LedCommand::FadeOut { duration_ms } => {
                &&& !send
                &&& after.current_frame == self.current_frame
                &&& if self.dark() {
                    after.animation is None
                } else {
                    &&& after.fades(FadeKind::Out, duration_or(duration_ms, DEFAULT_FADE_OUT_MS), now)
                    &&& after.animation->Some_0.kind->Fade_0.start == self.current_frame
                    &&& after.animation->Some_0.kind->Fade_0.target@ == ledcomm::dark(300)
                }
            },
            LedCommand::Rainbow => {
                &&& !send
                &&& after.current_frame == self.current_frame
                &&& after.animation == Some(
                    AnimationState::starting(
                        AnimationKind::Rainbow(RainbowState { hue: 0 }),
                        RAINBOW_TICK_MS,
                        now,
                    ),
                )
            },
            LedCommand::Breathing(color) => {
                &&& !send
                &&& after.current_frame == self.current_frame
                &&& after.animation == Some(
                    AnimationState::starting(
                        AnimationKind::Breathing(BreathingState { color, fresh: true }),
                        BREATHING_TICK_MS,
                        now,
                    ),
                )
            },
        }
    }

    /// Whether a fade of this kind and length has just begun.
    pub open spec fn fades(self, kind: FadeKind, duration_ms: u64, now: u64) -> bool {
        self.animation matches Some(AnimationState {
            kind: AnimationKind::Fade(fade),
            interval,
            next_tick,
        }) && {
            &&& fade.kind == kind
            &&& fade.duration == effects::nanos(duration_ms)
            &&& fade.started_at == now
            &&& interval == effects::nanos(FADE_TICK_MS)
            &&& next_tick == now
        }
    }

    pub fn new() -> (manager: Self)
        ensures
            manager.animation is None,
            manager.dark(),
            manager.wf(),
    {
        LedManager { animation: None, current_frame: zero_state_frame() }
    }

    /// Obeys a command; whether the frame has to be sent.
    pub fn handle_led_command(&mut self, command: LedCommand, now: u64) -> (send: bool)
        ensures
            old(self).obeys(command, now, *final(self), send),
            old(self).wf() ==> final(self).wf(),
    {
        match command {
            LedCommand::SetStaticColor(color) => {
                self.animation = None;
                self.fill_frame(color);
                true
            },
            LedCommand::SetStripState(state) => {
                if self.try_update_active_fade(&state, now) {
                    false
                } else {
                    self.animation = None;
                    self.current_frame = state;
                    true
                }
            },
            LedCommand::FadeIn { state, duration_ms } => {
                self.current_frame = zero_state_frame();
                let ms: u64 = match duration_ms {
                    Some(ms) => ms,
                    None => DEFAULT_FADE_IN_MS,
                };
                self.animation = Some(AnimationState::fade_in(state, ms, now));
                false
            },
            LedCommand::FadeOut { duration_ms } => {
                self.animation = None;
                if !self.is_black() {
                    let ms: u64 = match duration_ms {
                        Some(ms) => ms,
                        None => DEFAULT_FADE_OUT_MS,
                    };
                    self.animation = Some(AnimationState::fade_out(&self.current_frame, ms, now));
                }
                false
            },
            LedCommand::Rainbow => {
                self.animation = Some(AnimationState::rainbow(now));
                false
            },
            LedCommand::Breathing(color) => {
                self.animation = Some(AnimationState::breathing(color, now));
                false
            },
        }
    }

    /// When the next frame of the animation is due, if there is one.
    pub fn next_deadline(&self) -> (deadline: Option<u128>)
        ensures
            deadline == match self.animation {
                Some(animation) => Some(animation.next_tick),
                None => None,
            },
    {
        match &self.animation {
            Some(animation) => Some(animation.next_deadline()),
            None => None,
        }
    }

    /// Whether the next frame is a breath, and if so, whether it is the first one.
    pub fn breath(&self) -> (fresh: Option<bool>)
        ensures
            fresh == (match self.animation {
                Some(AnimationState { kind: AnimationKind::Breathing(breathing), .. }) => Some(
                    breathing.fresh,
                ),
                _ => None,
            }),
    {
        match &self.animation {
            Some(animation) => match &animation.kind {
                AnimationKind::Breathing(breathing) => Some(breathing.fresh),
                _ => None,
            },
            None => None,
        }
    }

    /// Draws the next frame of the animation; a breath at the brightness that is given.
    pub fn step_animation(&mut self, brightness: Share, now: u64) -> (step: AnimationStep)
        requires
            old(self).wf(),
            brightness.wf(),
        ensures
            final(self).wf(),
            old(self).steps(brightness, now, *final(self), step),
    {
        match self.animation {
            None => AnimationStep::Idle,
            Some(animation) => {
                let mut animation = animation;
                let step = match animation.render(&mut self.current_frame, brightness, now) {
                    AnimationStatus::Running => {
                        animation.schedule_next_tick(now);
                        AnimationStep::Drawn
                    },
                    AnimationStatus::Finished => AnimationStep::DrawnLast,
                };
                self.animation = Some(animation);
                step
            },
        }
    }

    /// Ends the animation if its last frame was sent or a frame could not be.
    pub fn frame_sent(&mut self, sent: bool, last: bool)
        ensures
            *final(self) == old(self).after_sending(sent, last),
    {
        if !sent || last {
            self.animation = None;
        }
    }

    fn fill_frame(&mut self, color: Color)
        ensures
            final(self).animation == old(self).animation,
            filled(final(self).current_frame, color),
    {
        let mut i: usize = 0;
        while i < NUM_LEDS
            invariant
                i <= NUM_LEDS,
                self.animation == old(self).animation,
                forall|j: int| 0 <= j < i ==> #[trigger] self.current_frame@[j] == color,
            decreases NUM_LEDS - i,
        {
            self.current_frame[i] = color;
            i += 1;
        }
    }

    fn try_update_active_fade(&mut self, target: &LedStripState, now: u64) -> (done: bool)
        ensures
            done == old(self).fading_in(),
            done ==> final(self).current_frame == old(self).current_frame && final(self).animation
                == Some(
                AnimationState {
                    kind: AnimationKind::Fade(
                        old(self).animation->Some_0.kind->Fade_0.retargeted(
                            old(self).current_frame,
                            *target,
                            now,
                        ),
                    ),
                    ..old(self).animation->Some_0
                },
            ),
            !done ==> *final(self) == *old(self),
    {
        match self.animation {
            None => false,
            Some(animation) => {
                let mut animation = animation;
                let done = animation.update_fade_target(&self.current_frame, target, now);
                if done {
                    self.animation = Some(animation);
                }
                done
            },
        }
    }

    pub fn is_black(&self) -> (black: bool)
        ensures
            black == self.dark(),
    {
        let mut i: usize = 0;
        while i < NUM_LEDS
            invariant
                i <= NUM_LEDS,
                forall|j: int|
                    0 <= j < i ==> #[trigger] self.current_frame@[j] == [0u8, 0u8, 0u8],
            decreases NUM_LEDS - i,
        {
            let pixel = self.current_frame[i];
            if !(pixel[0] == 0 && pixel[1] == 0 && pixel[2] == 0) {
                assert(self.current_frame@[i as int] != ledcomm::dark(300)[i as int]);
                return false;
            }
            assert(pixel =~= [0u8, 0u8, 0u8]);
            i += 1;
        }
        assert(self.current_frame@ =~= ledcomm::dark(300));
        true
    }
}

/// Fading out LEDs that are dark already does nothing.
pub proof fn dark_leds_do_not_fade_out(
    manager: LedManager,
    duration_ms: Option<u64>,
    now: u64,
    after: LedManager,
    send: bool,
)
    requires
        manager.dark(),
        manager.obeys(LedCommand::FadeOut { duration_ms }, now, after, send),
    ensures
        after.animation is None,
        after.dark(),
        !send,
{
}

/// A frame that is set while the LEDs fade in never interrupts the fade: it becomes
/// what the fade leads to.
pub proof fn frames_do_not_interrupt_fade_in(
    manager: LedManager,
    state: LedStripState,
    now: u64,
    after: LedManager,
    send: bool,
)
    requires
        manager.fading_in(),
        manager.obeys(LedCommand::SetStripState(state), now, after, send),
    ensures
        after.fading_in(),
        after.animation->Some_0.kind->Fade_0.target == state,
        after.current_frame == manager.current_frame,
        !send,
{
}

/// A fade starts with the frame it comes from, ends with its target, and in between no
/// channel leaves the range between the two.
pub proof fn fade_leads_to_its_target(frame: StateFrame, fade: FadeState, progress: Share)
    requires
        progress.wf(),
        effects::mixes(frame, fade, progress),
    ensures
        progress.num == 0 ==> frame@ =~~= fade.start@,
        progress.is_whole() ==> frame@ =~~= fade.target@,
        forall|i: int, c: int|
            0 <= i < NUM_LEDS && 0 <= c < 3 ==> {
                let (a, b) = (fade.start@[i]@[c], fade.target@[i]@[c]);
                &&& a <= b ==> a <= #[trigger] frame@[i]@[c] <= b
                &&& b <= a ==> b <= frame@[i]@[c] <= a
            },
{
    assert forall|i: int, c: int| 0 <= i < NUM_LEDS && 0 <= c < 3 implies {
        let (a, b) = (fade.start@[i]@[c], fade.target@[i]@[c]);
        &&& a <= b ==> a <= #[trigger] frame@[i]@[c] <= b
        &&& b <= a ==> b <= frame@[i]@[c] <= a
        &&& progress.num == 0 ==> frame@[i]@[c] == a
        &&& progress.is_whole() ==> frame@[i]@[c] == b
    } by {
        assert(share::pixel_between(fade.start@[i], fade.target@[i], progress, frame@[i]));
        share::way_leads_from_start_to_end(fade.start@[i]@[c], fade.target@[i]@[c], progress);
    }
    assert forall|i: int| 0 <= i < NUM_LEDS && progress.num == 0 implies frame@[i]
        == fade.start@[i] by {
        assert(frame@[i] =~= fade.start@[i]);
    }
    assert forall|i: int| 0 <= i < NUM_LEDS && progress.is_whole() implies frame@[i]
        == fade.target@[i] by {
        assert(frame@[i] =~= fade.target@[i]);
    }
}

/// When its time is over, a fade shows its target and ends, whenever it is drawn; at its
/// beginning it shows the frame it comes from.
pub proof fn fade_ends_in_time(
    animation: AnimationState,
    fade: FadeState,
    frame: StateFrame,
    brightness: Share,
    now: u64,
)
    requires
        animation.kind == AnimationKind::Fade(fade),
        animation.draws(frame, brightness, now),
    ensures
        fade.started_at + fade.duration <= now ==> animation.ends(now) && frame@ =~~= fade.target@,
        fade.duration > 0 && now <= fade.started_at ==> !animation.ends(now) && frame@
            =~~= fade.start@,
{
    let progress = fade.progress_at(now);
    if fade.duration > 0 {
        progress::fade_takes_its_time(
            effects::since(fade.started_at, now) as nat,
            fade.duration as nat,
        );
    }
    if fade.started_at + fade.duration <= now || fade.duration > 0 && now <= fade.started_at {
        fade_leads_to_its_target(frame, fade, progress);
    }
}

/// A frame that is set while the LEDs fade in does not make them jump: drawn at once, with
/// time left, the fade shows what the LEDs showed when the frame came. It still ends when
/// it would have, and then shows the new frame.
pub proof fn new_target_does_not_jump(
    manager: LedManager,
    state: LedStripState,
    now: u64,
    after: LedManager,
    send: bool,
    brightness: Share,
    later: u64,
    frame: StateFrame,
)
    requires
        manager.fading_in(),
        manager.obeys(LedCommand::SetStripState(state), now, after, send),
        after.animation->Some_0.draws(frame, brightness, later),
    ensures
        ({
            let fade = manager.animation->Some_0.kind->Fade_0;
            let end = fade.started_at + fade.duration;
            &&& later == now && fade.started_at <= now < end ==> frame@
                =~~= manager.current_frame@ && !after.animation->Some_0.ends(later)
            &&& fade.started_at <= now && end <= later && now <= later ==> frame@ =~~= state@
                && after.animation->Some_0.ends(later)
        }),
{
    let fade = after.animation->Some_0.kind->Fade_0;
    fade_ends_in_time(after.animation->Some_0, fade, frame, brightness, later);
}

/// Retargeting a fade at any moment before its end draws exactly the frame that was shown
/// then.
pub proof fn retargeted_fade_starts_where_it_is(
    fade: FadeState,
    current: StateFrame,
    target: StateFrame,
    now: u64,
    frame: StateFrame,
)
    requires
        fade.started_at <= now < fade.started_at + fade.duration,
        effects::mixes(
            frame,
            fade.retargeted(current, target, now),
            fade.retargeted(current, target, now).progress_at(now),
        ),
    ensures
        frame@ =~~= current@,
{
    let next = fade.retargeted(current, target, now);
    progress::fade_takes_its_time(0, next.duration as nat);
    fade_leads_to_its_target(frame, next, next.progress_at(now));
}

/// A fade-in begins dark and has come to its frame after the time that was asked for, or
/// after one and a half seconds; until it is drawn the LEDs are dark.
pub proof fn fade_in_leads_from_dark_to_frame(
    manager: LedManager,
    state: LedStripState,
    duration_ms: Option<u64>,
    now: u64,
    after: LedManager,
    send: bool,
    brightness: Share,
    later: u64,
    frame: StateFrame,
)
    requires
        manager.obeys(LedCommand::FadeIn { state, duration_ms }, now, after, send),
        after.animation is Some,
        after.animation->Some_0.draws(frame, brightness, later),
    ensures
        ({
            let ms = match duration_ms {
                Some(ms) => ms,
                None => 1_500,
            };
            &&& after.current_frame@ == ledcomm::dark(300)
            &&& later == now && ms > 0 ==> frame@ =~~= ledcomm::dark(300)
            &&& now + ms * 1_000_000 <= later ==> frame@ =~~= state@
                && after.animation->Some_0.ends(later)
            &&& !send
        }),
{
    let fade = after.animation->Some_0.kind->Fade_0;
    assert(fade.duration == effects::nanos(duration_or(duration_ms, 1_500)));
    fade_ends_in_time(after.animation->Some_0, fade, frame, brightness, later);
}

/// A fade-out begins with what the LEDs show and is dark after the time that was asked for,
/// or after three seconds.
pub proof fn fade_out_leads_to_dark(
    manager: LedManager,
    duration_ms: Option<u64>,
    now: u64,
    after: LedManager,
    send: bool,
    brightness: Share,
    later: u64,
    frame: StateFrame,
)
    requires
        manager.obeys(LedCommand::FadeOut { duration_ms }, now, after, send),
        after.animation is Some,
        after.animation->Some_0.draws(frame, brightness, later),
    ensures
        ({
            let ms = match duration_ms {
                Some(ms) => ms,
                None => 3_000,
            };
            &&& after.current_frame == manager.current_frame
            &&& later == now && ms > 0 ==> frame@ =~~= manager.current_frame@
            &&& now + ms * 1_000_000 <= later ==> frame@ =~~= ledcomm::dark(300)
                && after.animation->Some_0.ends(later)
            &&& !send
        }),
{
    let fade = after.animation->Some_0.kind->Fade_0;
    assert(fade.duration == effects::nanos(duration_or(duration_ms, 3_000)));
    fade_ends_in_time(after.animation->Some_0, fade, frame, brightness, later);
}

/// A colour or a frame that is set is what the LEDs show at once, and ends whatever moved
/// them; only a fade-in goes on towards the frame.
pub proof fn static_commands_are_shown_at_once(
    manager: LedManager,
    color: Color,
    state: LedStripState,
    now: u64,
    filled: LedManager,
    filled_sent: bool,
    set: LedManager,
    set_sent: bool,
)
    requires
        manager.obeys(LedCommand::SetStaticColor(color), now, filled, filled_sent),
        manager.obeys(LedCommand::SetStripState(state), now, set, set_sent),
    ensures
        filled_sent,
        filled.animation is None,
        filled.current_frame@ =~= Seq::new(300, |i: int| color),
        !manager.fading_in() ==> set_sent && set.animation is None && set.current_frame == state,
{
}

/// Rainbow and breathing begin with the next tick, at once; the rainbow with its first hue
/// on the first LED, the breath with its first.
pub proof fn effects_begin_at_once(
    manager: LedManager,
    color: Color,
    now: u64,
    rainbow: LedManager,
    rainbow_sent: bool,
    breath: LedManager,
    breath_sent: bool,
    brightness: Share,
    frame: StateFrame,
)
    requires
        manager.obeys(LedCommand::Rainbow, now, rainbow, rainbow_sent),
        manager.obeys(LedCommand::Breathing(color), now, breath, breath_sent),
        rainbow.animation is Some,
        rainbow.animation->Some_0.draws(frame, brightness, now),
    ensures
        rainbow.animation->Some_0.next_tick == now,
        breath.animation is Some,
        breath.animation->Some_0.next_tick == now,
        rainbow.animation->Some_0.interval == 8_000_000,
        breath.animation->Some_0.interval == 16_000_000,
        breath.animation->Some_0.kind == AnimationKind::Breathing(
            BreathingState { color, fresh: true },
        ),
        rainbow.current_frame == manager.current_frame,
        breath.current_frame == manager.current_frame,
        forall|i: int|
            0 <= i < 300 ==> effects::has_hue(#[trigger] frame@[i], (i % 256) as u8),
        !rainbow_sent,
        !breath_sent,
{
    assert forall|i: int| 0 <= i < 300 implies effects::has_hue(
        #[trigger] frame@[i],
        (i % 256) as u8,
    ) by {
        assert(effects::has_hue(frame@[i], effects::rainbow_hue(0, i)));
    }
}

/// A rainbow moves along the strip: what the next LED showed is shown by each LED in the
/// frame after it.
pub proof fn rainbow_frames_move(
    animation: AnimationState,
    first: StateFrame,
    second: StateFrame,
    brightness: Share,
    now: u64,
    i: int,
    c: int,
)
    requires
        animation.kind is Rainbow,
        animation.draws(first, brightness, now),
        animation.moved_on().draws(second, brightness, now),
        0 <= i < 299,
        0 <= c < 3,
    ensures
        second@[i]@[c] == first@[i + 1]@[c],
        !animation.ends(now),
{
    let hue = animation.kind->Rainbow_0.hue;
    effects::rainbow_moves_by_one(hue, i);
    assert(effects::has_hue(first@[i + 1], effects::rainbow_hue(hue, i + 1)));
    assert(effects::has_hue(
        second@[i],
        effects::rainbow_hue(((hue + 1) % 256) as u8, i),
    ));
}

/// A breath is the colour itself at full brightness, dark at none, and never brighter than
/// the colour; it does not end, and only the first one is fresh.
pub proof fn breath_stays_within_its_color(
    animation: AnimationState,
    frame: StateFrame,
    brightness: Share,
    now: u64,
    i: int,
    c: int,
)
    requires
        animation.kind is Breathing,
        brightness.wf(),
        animation.draws(frame, brightness, now),
        0 <= i < 300,
        0 <= c < 3,
    ensures
        ({
            let color = animation.kind->Breathing_0.color;
            &&& frame@[i]@[c] <= color@[c]
            &&& brightness.is_whole() ==> frame@[i]@[c] == color@[c]
            &&& brightness.num == 0 ==> frame@[i]@[c] == 0
            &&& !animation.ends(now)
            &&& animation.moved_on().kind == AnimationKind::Breathing(
                BreathingState { color, fresh: false },
            )
        }),
{
    share::dimming_only_darkens(animation.kind->Breathing_0.color@[c], brightness);
}

/// A frame that was drawn is sent, and the next one is due an interval later; the last one
/// ends the animation once it was sent, and a failure ends it at once. Neither changes what
/// the LEDs show.
pub proof fn animation_goes_on_until_its_last_frame(
    leds: LedManager,
    brightness: Share,
    now: u64,
    after: LedManager,
    step: AnimationStep,
    sent: bool,
)
    requires
        leds.wf(),
        leds.steps(brightness, now, after, step),
    ensures
        step == AnimationStep::Idle <==> leds.animation is None,
        step == AnimationStep::Idle ==> after == leds,
        step == AnimationStep::Drawn ==> after.animation is Some
            && after.animation->Some_0.next_tick == now + leds.animation->Some_0.interval
            && after.animation->Some_0.interval == leds.animation->Some_0.interval,
        after.after_sending(sent, step == AnimationStep::DrawnLast).current_frame
            == after.current_frame,
        after.after_sending(true, false) == after,
        after.after_sending(sent, true).animation is None,
        after.after_sending(false, step == AnimationStep::DrawnLast).animation is None,
        leds.animation is Some && !(leds.animation->Some_0.kind is Fade) ==> step
            == AnimationStep::Drawn,
{
}

} // verus!
