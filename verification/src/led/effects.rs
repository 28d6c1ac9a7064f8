//! Animations of the LEDs. Times are nanoseconds on the daemon's clock.

use vstd::prelude::*;

use crate::ledcomm;
use crate::ledcomm::{zero_state_frame, Pixel, StateFrame, NUM_LEDS};
use crate::led::hsv;
use crate::led::hsv::hsv_to_rgb;
use crate::led::progress;
use crate::led::progress::{progress_of, LONGEST};
use crate::led::share;
use crate::led::share::{dim_color, lerp_frame, Share};

verus! {

pub const DEFAULT_FADE_IN_MS: u64 = 1_500;

pub const DEFAULT_FADE_OUT_MS: u64 = 3_000;

pub const RAINBOW_TICK_MS: u64 = 8;

pub const BREATHING_TICK_MS: u64 = 16;

pub const FADE_TICK_MS: u64 = 16;

pub const NANOS_PER_MS: u128 = 1_000_000;

/// Nanoseconds of a time in milliseconds.
pub open spec fn nanos(ms: u64) -> u128 {
    (ms * 1_000_000) as u128
}

fn nanos_of(ms: u64) -> (ns: u128)
    ensures
        ns == nanos(ms),
        ns == ms * 1_000_000,
{
    ms as u128 * NANOS_PER_MS
}

#[derive(Debug, Clone, Copy, PartialEq, Eq, Structural)]
pub enum AnimationStatus {
    Running,
    Finished,
}

/// A rainbow that moves along the strip.
#[derive(Debug, Clone, Copy, PartialEq, Eq, Structural)]
pub struct RainbowState {
    pub hue: u8,
}

/// The hue of the LED at `idx` when the first has `base`.
pub open spec fn rainbow_hue(base: u8, idx: int) -> u8 {
    ((base + idx) % 256) as u8
}

/// Whether the pixel has the full colour of the hue.
pub open spec fn has_hue(pixel: Pixel, hue: u8) -> bool {
    forall|c: int| 0 <= c < 3 ==> #[trigger] pixel@[c] == hsv::rgb(hue, 255, 255)[c]
}

impl RainbowState {
    /// Draws the rainbow and moves it on by one hue.
    pub fn render(&mut self, frame: &mut StateFrame)
        ensures
            final(self).hue == (old(self).hue + 1) % 256,
            forall|i: int|
                0 <= i < NUM_LEDS ==> has_hue(
                    #[trigger] final(frame)@[i],
                    rainbow_hue(old(self).hue, i),
                ),
    {
        let base_hue: u8 = self.hue;
        self.hue = self.hue.wrapping_add(1);
        let mut i: usize = 0;
        while i < NUM_LEDS
            invariant
                i <= NUM_LEDS,
                forall|j: int|
                    0 <= j < i ==> has_hue(#[trigger] frame@[j], rainbow_hue(base_hue, j)),
            decreases NUM_LEDS - i,
        {
            let hue: u8 = ((base_hue as usize + i) % 256) as u8;
            frame[i] = hsv_to_rgb(hue, 255, 255);
            i += 1;
        }
    }
}

/// A colour that swells and fades.
#[derive(Debug, Clone, Copy)]
pub struct BreathingState {
    pub color: Pixel,
    /// Nothing has been drawn yet.
    pub fresh: bool,
}

/// Whether all LEDs show the colour at this brightness.
pub open spec fn breathes(frame: StateFrame, color: Pixel, brightness: Share) -> bool {
    forall|i: int, c: int|
        0 <= i < NUM_LEDS && 0 <= c < 3 ==> #[trigger] frame@[i]@[c] == share::dimmed(
            color@[c],
            brightness,
        )
}

impl BreathingState {
    /// Draws the colour at this brightness.
    pub fn render(&mut self, frame: &mut StateFrame, brightness: Share)
        requires
            brightness.wf(),
        ensures
            breathes(*final(frame), old(self).color, brightness),
            *final(self) == (BreathingState { fresh: false, ..*old(self) }),
    {
        let dim = dim_color(self.color, brightness);
        let mut i: usize = 0;
        while i < NUM_LEDS
            invariant
                i <= NUM_LEDS,
                forall|j: int| 0 <= j < i ==> #[trigger] frame@[j] == dim,
            decreases NUM_LEDS - i,
        {
            frame[i] = dim;
            i += 1;
        }
        self.fresh = false;
    }
}

#[derive(Debug, Clone, Copy, PartialEq, Eq, Structural)]
pub enum FadeKind {
    In,
    Out,
}

/// A passage from one frame to another.
#[derive(Debug, Clone, Copy)]
pub struct FadeState {
    pub start: StateFrame,
    pub target: StateFrame,
    pub duration: u128,
    pub started_at: u64,
    pub kind: FadeKind,
}

/// The time from `start` to `now`.
pub open spec fn since(start: u64, now: u64) -> u64 {
    if now >= start {
        (now - start) as u64
    } else {
        0
    }
}

/// Whether the frame is the one at a share of a fade's way.
pub open spec fn mixes(frame: StateFrame, fade: FadeState, progress: Share) -> bool {
    forall|i: int|
        0 <= i < NUM_LEDS ==> share::pixel_between(
            fade.start@[i],
            fade.target@[i],
            progress,
            #[trigger] frame@[i],
        )
}

impl FadeState {
    pub open spec fn wf(self) -> bool {
        self.duration <= LONGEST
    }

    /// The share of its way that the fade has come at `now`; one that takes no time is
    /// over.
    pub open spec fn progress_at(self, now: u64) -> Share {
        if self.duration == 0 {
            Share { num: 1, den: 1 }
        } else {
            progress::progress(since(self.started_at, now) as nat, self.duration as nat)
        }
    }

    pub fn new(start: StateFrame, target: StateFrame, duration: u128, kind: FadeKind, now: u64) -> (state:
        Self)
        ensures
            state == (FadeState { start, target, duration, started_at: now, kind }),
    {
        FadeState { start, target, duration, started_at: now, kind }
    }

    /// Draws the fade as far as it has come; whether it is over.
    pub fn render(&self, frame: &mut StateFrame, now: u64) -> (finished: bool)
        requires
            self.wf(),
        ensures
            mixes(*final(frame), *self, self.progress_at(now)),
            finished == self.progress_at(now).is_whole(),
    {
        if self.duration == 0 {
            *frame = self.target;
            proof {
                assert forall|i: int| 0 <= i < NUM_LEDS implies share::pixel_between(
                    self.start@[i],
                    self.target@[i],
                    self.progress_at(now),
                    #[trigger] frame@[i],
                ) by {
                    let (start, end) = (self.start@[i], self.target@[i]);
                    assert forall|c: int| 0 <= c < 3 implies #[trigger] end@[c] == share::lerped(
                        start@[c],
                        end@[c],
                        self.progress_at(now),
                    ) by {
                        share::way_leads_from_start_to_end(
                            start@[c],
                            end@[c],
                            self.progress_at(now),
                        );
                    }
                }
            }
            return true;
        }
        let progress = progress_of(now.saturating_sub(self.started_at), self.duration);
        *frame = lerp_frame(&self.start, &self.target, progress);
        progress.num as u64 == progress.den
    }

    /// The fade from the frame that is shown to another target, in the time that was
    /// left.
    pub open spec fn retargeted(self, current: StateFrame, target: StateFrame, now: u64) -> FadeState {
        FadeState {
            start: current,
            target,
            duration: if since(self.started_at, now) >= self.duration {
                0
            } else {
                (self.duration - since(self.started_at, now)) as u128
            },
            started_at: now,
            ..self
        }
    }

    /// Gives a fade-in another target; anything else is left as it is.
    pub fn retarget(&mut self, current: &StateFrame, target: &StateFrame, now: u64) -> (done: bool)
        ensures
            done == (old(self).kind == FadeKind::In),
            done ==> *final(self) == old(self).retargeted(*current, *target, now),
            !done ==> *final(self) == *old(self),
    {
        match self.kind {
            FadeKind::In => {},
            FadeKind::Out => {
                return false;
            },
        }
        let elapsed: u64 = now.saturating_sub(self.started_at);
        self.duration = if elapsed as u128 >= self.duration {
            0
        } else {
            self.duration - elapsed as u128
        };
        self.start = *current;
        self.target = *target;
        self.started_at = now;
        true
    }
}

#[derive(Debug, Clone, Copy)]
pub enum AnimationKind {
    Rainbow(RainbowState),
    Breathing(BreathingState),
    Fade(FadeState),
}

/// A running animation.
#[derive(Debug, Clone, Copy)]
pub struct AnimationState {
    pub kind: AnimationKind,
    pub interval: u128,
    pub next_tick: u128,
}

impl AnimationState {
    /// It ticks at one of the known intervals, and a fade does not take longer than can
    /// be asked for.
    pub open spec fn wf(self) -> bool {
        &&& self.interval <= 0x1_0000_0000_0000_0000
        &&& self.kind matches AnimationKind::Fade(fade) ==> fade.wf()
    }

    /// The animation after a frame of it was drawn.
    pub open spec fn moved_on(self) -> AnimationState {
        AnimationState {
            kind: match self.kind {
                AnimationKind::Rainbow(rainbow) => AnimationKind::Rainbow(
                    RainbowState { hue: ((rainbow.hue + 1) % 256) as u8 },
                ),
                AnimationKind::Breathing(breathing) => AnimationKind::Breathing(
                    BreathingState { fresh: false, ..breathing },
                ),
                AnimationKind::Fade(fade) => AnimationKind::Fade(fade),
            },
            ..self
        }
    }

    /// Whether the frame is what the animation shows at `now`; a breath has the
    /// brightness that is given.
    pub open spec fn draws(self, frame: StateFrame, brightness: Share, now: u64) -> bool {
        match self.kind {
            AnimationKind::Rainbow(rainbow) => forall|i: int|
                0 <= i < NUM_LEDS ==> has_hue(#[trigger] frame@[i], rainbow_hue(rainbow.hue, i)),
            AnimationKind::Breathing(breathing) => breathes(frame, breathing.color, brightness),
            AnimationKind::Fade(fade) => mixes(frame, fade, fade.progress_at(now)),
        }
    }

    /// Whether the animation is over when that frame is drawn.
    pub open spec fn ends(self, now: u64) -> bool {
        self.kind matches AnimationKind::Fade(fade) && fade.progress_at(now).is_whole()
    }

    /// Draws the animation's next frame.
    pub fn render(&mut self, frame: &mut StateFrame, brightness: Share, now: u64) -> (status:
        AnimationStatus)
        requires
            old(self).wf(),
            brightness.wf(),
        ensures
            *final(self) == old(self).moved_on(),
            old(self).draws(*final(frame), brightness, now),
            status == (if old(self).ends(now) {
                AnimationStatus::Finished
            } else {
                AnimationStatus::Running
            }),
    {
        match self.kind {
            AnimationKind::Rainbow(rainbow) => {
                let mut rainbow = rainbow;
                rainbow.render(frame);
                self.kind = AnimationKind::Rainbow(rainbow);
                AnimationStatus::Running
            },
            AnimationKind::Breathing(breathing) => {
                let mut breathing = breathing;
                breathing.render(frame, brightness);
                self.kind = AnimationKind::Breathing(breathing);
                AnimationStatus::Running
            },
            AnimationKind::Fade(fade) => {
                if fade.render(frame, now) {
                    AnimationStatus::Finished
                } else {
                    AnimationStatus::Running
                }
            },
        }
    }

    /// An animation that is due at once.
    pub open spec fn starting(kind: AnimationKind, interval_ms: u64, now: u64) -> AnimationState {
        AnimationState { kind, interval: nanos(interval_ms), next_tick: now as u128 }
    }

    fn new(kind: AnimationKind, interval_ms: u64, now: u64) -> (state: Self)
        ensures
            state == AnimationState::starting(kind, interval_ms, now),
    {
        AnimationState { kind, interval: nanos_of(interval_ms), next_tick: now as u128 }
    }

    pub fn rainbow(now: u64) -> (state: Self)
        ensures
            state == AnimationState::starting(
                AnimationKind::Rainbow(RainbowState { hue: 0 }),
                RAINBOW_TICK_MS,
                now,
            ),
    {
        AnimationState::new(AnimationKind::Rainbow(RainbowState { hue: 0 }), RAINBOW_TICK_MS, now)
    }

    pub fn breathing(color: Pixel, now: u64) -> (state: Self)
        ensures
            state == AnimationState::starting(
                AnimationKind::Breathing(BreathingState { color, fresh: true }),
                BREATHING_TICK_MS,
                now,
            ),
    {
        AnimationState::new(
            AnimationKind::Breathing(BreathingState { color, fresh: true }),
            BREATHING_TICK_MS,
            now,
        )
    }

    /// A fade from the frame that is shown to darkness.
    pub fn fade_out(current: &StateFrame, duration_ms: u64, now: u64) -> (state: Self)
        ensures
            state.kind is Fade,
            state.kind->Fade_0.start == *current,
            state.kind->Fade_0.target@ == ledcomm::dark(300),
            state == AnimationState::starting(
                AnimationKind::Fade(
                    FadeState {
                        start: *current,
                        target: state.kind->Fade_0.target,
                        duration: nanos(duration_ms),
                        started_at: now,
                        kind: FadeKind::Out,
                    },
                ),
                FADE_TICK_MS,
                now,
            ),
    {
        let fade = FadeState::new(
            *current,
            zero_state_frame(),
            nanos_of(duration_ms),
            FadeKind::Out,
            now,
        );
        AnimationState::new(AnimationKind::Fade(fade), FADE_TICK_MS, now)
    }

    /// A fade from darkness to a frame.
    pub fn fade_in(target: StateFrame, duration_ms: u64, now: u64) -> (state: Self)
        ensures
            state.kind is Fade,
            state.kind->Fade_0.start@ == ledcomm::dark(300),
            state == AnimationState::starting(
                AnimationKind::Fade(
                    FadeState {
                        start: state.kind->Fade_0.start,
                        target,
                        duration: nanos(duration_ms),
                        started_at: now,
                        kind: FadeKind::In,
                    },
                ),
                FADE_TICK_MS,
                now,
            ),
    {
        let fade = FadeState::new(
            zero_state_frame(),
            target,
            nanos_of(duration_ms),
            FadeKind::In,
            now,
        );
        AnimationState::new(AnimationKind::Fade(fade), FADE_TICK_MS, now)
    }

    pub fn next_deadline(&self) -> (deadline: u128)
        ensures
            deadline == self.next_tick,
    {
        self.next_tick
    }

    pub fn schedule_next_tick(&mut self, now: u64)
        requires
            old(self).interval <= 0x1_0000_0000_0000_0000,
        ensures
            *final(self) == (AnimationState {
                next_tick: (now + old(self).interval) as u128,
                ..*old(self)
            }),
    {
        self.next_tick = now as u128 + self.interval;
    }

    /// Gives a fade-in another target; any other animation is left as it is.
    pub fn update_fade_target(&mut self, current: &StateFrame, target: &StateFrame, now: u64) -> (done:
        bool)
        ensures
            done == (old(self).kind matches AnimationKind::Fade(fade) && fade.kind == FadeKind::In),
            done ==> *final(self) == (AnimationState {
                kind: AnimationKind::Fade(
                    old(self).kind->Fade_0.retargeted(*current, *target, now),
                ),
                ..*old(self)
            }),
            !done ==> *final(self) == *old(self),
    {
        match self.kind {
            AnimationKind::Fade(fade) => {
                let mut fade = fade;
                let done = fade.retarget(current, target, now);
                if done {
                    self.kind = AnimationKind::Fade(fade);
                }
                done
            },
            _ => false,
        }
    }
}

/// A fade-in that gets another target still ends when it would have.
pub proof fn retargeting_keeps_the_end(
    fade: FadeState,
    current: StateFrame,
    target: StateFrame,
    now: u64,
)
    requires
        fade.started_at <= now,
        since(fade.started_at, now) <= fade.duration,
    ensures
        fade.retargeted(current, target, now).started_at + fade.retargeted(
            current,
            target,
            now,
        ).duration == fade.started_at + fade.duration,
        fade.retargeted(current, target, now).kind == fade.kind,
{
}

/// The rainbow moves along the strip: after a step each LED has the hue that the next
/// one had.
pub proof fn rainbow_moves_by_one(base: u8, idx: int)
    requires
        0 <= idx < NUM_LEDS - 1,
    ensures
        rainbow_hue(((base + 1) % 256) as u8, idx) == rainbow_hue(base, idx + 1),
{
    vstd::arithmetic::div_mod::lemma_add_mod_noop_right(idx, base + 1, 256);
}

} // verus!
