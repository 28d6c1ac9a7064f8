//! Whether the seat is idle, and whether a client keeps it from counting as such.

use vstd::prelude::*;

use crate::bridge::messaging::{Message, Messenger, Outgoing};

verus! {

pub const NANOS_PER_MS: u64 = 1_000_000;

/// The idle state. Times are nanoseconds on the daemon's clock.
#[derive(Debug, Clone, Copy, PartialEq, Eq, Structural)]
pub struct IdleState {
    pub seat_idle: bool,
    pub idle_inhibit: bool,
    pub requested_timeout: Option<u64>,
    pub deadline: Option<u128>,
    pub timer_running: bool,
}

/// When a timer of `ms` that starts at `now` is due.
pub open spec fn due(now: u64, ms: u64) -> u128 {
    (now + ms * NANOS_PER_MS) as u128
}

/// Whole milliseconds from `now` until `deadline`, in 64 bits.
pub open spec fn ms_until(deadline: u128, now: u64) -> u64 {
    if deadline <= now {
        0
    } else {
        ((deadline - now) / 1_000_000 % 0x1_0000_0000_0000_0000) as u64
    }
}

impl IdleState {
    /// Whether the seat counts as idle.
    pub open spec fn is_idle(self) -> bool {
        self.seat_idle && !self.idle_inhibit
    }

    /// Nobody has been away yet, and nobody inhibits anything.
    pub open spec fn initial() -> IdleState {
        IdleState {
            seat_idle: false,
            idle_inhibit: false,
            requested_timeout: None,
            deadline: None,
            timer_running: false,
        }
    }

    /// A running timer belongs to an inhibition that ends.
    pub open spec fn wf(self) -> bool {
        self.timer_running ==> self.idle_inhibit && self.deadline is Some
            && self.requested_timeout is Some
    }

    /// The state after a client asked to inhibit idling or to let it be.
    pub open spec fn inhibited(self, enabled: bool, timeout_ms: Option<u64>, now: u64) -> IdleState {
        match (enabled, timeout_ms) {
            (true, Some(ms)) => IdleState {
                idle_inhibit: true,
                requested_timeout: timeout_ms,
                deadline: Some(due(now, ms)),
                timer_running: ms != 0,
                ..self
            },
            _ => IdleState {
                idle_inhibit: enabled,
                requested_timeout: None,
                deadline: None,
                timer_running: false,
                ..self
            },
        }
    }

    /// What has to be done about the timer then.
    pub open spec fn timer_messages(self, enabled: bool, timeout_ms: Option<u64>) -> Seq<Message> {
        self.cancel_messages() + match (enabled, timeout_ms) {
            (true, Some(ms)) => if ms == 0 {
                seq![Message::TimeoutNow]
            } else {
                seq![Message::StartTimer { duration_ms: ms }]
            },
            _ => seq![],
        }
    }

    pub open spec fn cancel_messages(self) -> Seq<Message> {
        if self.timer_running {
            seq![Message::CancelTimer]
        } else {
            seq![]
        }
    }

    /// Whether such a request changes anything.
    pub open spec fn inhibit_changes(self, enabled: bool, timeout_ms: Option<u64>) -> bool {
        self.idle_inhibit != enabled || (enabled && self.requested_timeout != timeout_ms)
    }

    /// The time left of the inhibition, if it ends.
    pub open spec fn remaining(self, now: u64) -> Option<u64> {
        match self.deadline {
            Some(deadline) if self.idle_inhibit => Some(ms_until(deadline, now)),
            _ => None,
        }
    }

    /// The state after the timer was due.
    pub open spec fn timed_out(self) -> IdleState {
        if self.idle_inhibit {
            IdleState {
                idle_inhibit: false,
                requested_timeout: None,
                deadline: None,
                timer_running: false,
                ..self
            }
        } else {
            IdleState { timer_running: false, ..self }
        }
    }

    pub fn new() -> (state: Self)
        ensures
            state == IdleState::initial(),
    {
        IdleState {
            seat_idle: false,
            idle_inhibit: false,
            requested_timeout: None,
            deadline: None,
            timer_running: false,
        }
    }

    pub fn effective_idle(&self) -> (idle: bool)
        ensures
            idle == self.is_idle(),
    {
        self.seat_idle && !self.idle_inhibit
    }

    /// Takes in a client's request; whether it changed anything.
    pub fn apply_inhibit(
        &mut self,
        enabled: bool,
        timeout_ms: Option<u64>,
        now: u64,
        messenger: &mut Messenger,
    ) -> (changed: bool)
        ensures
            *final(self) == old(self).inhibited(enabled, timeout_ms, now),
            final(messenger)@ == old(messenger)@ + old(self).timer_messages(enabled, timeout_ms),
            changed == old(self).inhibit_changes(enabled, timeout_ms),
    {
        let prev_enabled = self.idle_inhibit;
        let prev_timeout = self.requested_timeout;
        let ghost before = *self;
        self.cancel_timer(messenger);
        if enabled {
            self.requested_timeout = timeout_ms;
            match timeout_ms {
                Some(ms) => self.start_timer(ms, now, messenger),
                None => self.deadline = None,
            }
        } else {
            self.requested_timeout = None;
            self.deadline = None;
        }
        self.idle_inhibit = enabled;
        assert(messenger@ =~= old(messenger)@ + before.timer_messages(enabled, timeout_ms));
        prev_enabled != enabled || (enabled && !same_timeout(prev_timeout, timeout_ms))
    }

    pub fn remaining_inhibit_ms(&self, now: u64) -> (remaining: Option<u64>)
        ensures
            remaining == self.remaining(now),
    {
        if !self.idle_inhibit {
            return None;
        }
        match self.deadline {
            Some(deadline) => {
                if deadline <= now as u128 {
                    Some(0)
                } else {
                    Some(((deadline - now as u128) / 1_000_000 % 0x1_0000_0000_0000_0000) as u64)
                }
            },
            None => None,
        }
    }

    pub fn on_timeout(&mut self)
        ensures
            *final(self) == old(self).timed_out(),
    {
        self.timer_running = false;
        if !self.idle_inhibit {
            return;
        }
        self.idle_inhibit = false;
        self.requested_timeout = None;
        self.deadline = None;
    }

    pub fn cancel_timer(&mut self, messenger: &mut Messenger)
        ensures
            *final(self) == (IdleState { timer_running: false, ..*old(self) }),
            final(messenger)@ == old(messenger)@ + old(self).cancel_messages(),
    {
        if self.timer_running {
            self.timer_running = false;
            messenger.push(Outgoing::CancelTimer);
        }
        assert(messenger@ =~= old(messenger)@ + old(self).cancel_messages());
    }

    fn start_timer(&mut self, duration_ms: u64, now: u64, messenger: &mut Messenger)
        requires
            !old(self).timer_running,
        ensures
            *final(self) == (IdleState {
                deadline: Some(due(now, duration_ms)),
                timer_running: duration_ms != 0,
                ..*old(self)
            }),
            final(messenger)@ == old(messenger)@.push(
                if duration_ms == 0 {
                    Message::TimeoutNow
                } else {
                    Message::StartTimer { duration_ms }
                },
            ),
    {
        self.deadline = Some(now as u128 + duration_ms as u128 * NANOS_PER_MS as u128);
        if duration_ms == 0 {
            messenger.push(Outgoing::TimeoutNow);
        } else {
            self.timer_running = true;
            messenger.push(Outgoing::StartTimer { duration_ms });
        }
    }
}

fn same_timeout(a: Option<u64>, b: Option<u64>) -> (same: bool)
    ensures
        same == (a == b),
{
    match (a, b) {
        (Some(x), Some(y)) => x == y,
        (None, None) => true,
        _ => false,
    }
}

/// Every change of the idle state keeps a running timer tied to an inhibition that
/// ends, and once the timer was due nothing inhibits any more.
pub proof fn timer_belongs_to_inhibition(
    state: IdleState,
    enabled: bool,
    timeout_ms: Option<u64>,
    now: u64,
)
    requires
        state.wf(),
    ensures
        state.inhibited(enabled, timeout_ms, now).wf(),
        state.timed_out().wf(),
        !state.timed_out().idle_inhibit,
        !state.timed_out().timer_running,
{
}

/// Right after a request the time left is what was asked for, and it counts down to
/// zero.
pub proof fn inhibition_counts_down(state: IdleState, ms: u64, now: u64, later: u64)
    requires
        now <= later,
    ensures
        state.inhibited(true, Some(ms), now).remaining(now) == Some(ms),
        state.inhibited(true, Some(ms), now).remaining(later) matches Some(left) && left <= ms,
        later >= due(now, ms) ==> state.inhibited(true, Some(ms), now).remaining(later) == Some(
            0u64,
        ),
        state.inhibited(true, None, now).remaining(later) is None,
        state.inhibited(false, Some(ms), now).remaining(later) is None,
{
    assert(now + ms * NANOS_PER_MS <= u128::MAX);
}

/// Idling that was inhibited and let be again is as it was before.
pub proof fn inhibition_can_be_undone(state: IdleState, timeout_ms: Option<u64>, now: u64, later: u64)
    requires
        state.wf(),
        !state.idle_inhibit,
        state.deadline is None,
        state.requested_timeout is None,
    ensures
        state.inhibited(true, timeout_ms, now).inhibited(false, None, later) == state,
        state.inhibited(true, timeout_ms, now).timed_out() == state,
{
}

/// A seat counts as idle when nobody uses it, unless a client inhibits that; what the
/// clients ask for and the timer do not change whether somebody uses it.
pub proof fn inhibition_hides_idle_seat(
    state: IdleState,
    timeout_ms: Option<u64>,
    now: u64,
)
    ensures
        !state.inhibited(true, timeout_ms, now).is_idle(),
        state.inhibited(false, timeout_ms, now).is_idle() == state.seat_idle,
        state.timed_out().is_idle() == state.seat_idle,
        state.inhibited(true, timeout_ms, now).seat_idle == state.seat_idle,
        state.inhibited(false, timeout_ms, now).seat_idle == state.seat_idle,
        state.timed_out().seat_idle == state.seat_idle,
{
}

/// An inhibition with a time starts a timer for that time, or is over at once if the time
/// is zero. A timer that was running is stopped first, and none is started for an inhibition
/// without a time or for the end of one.
pub proof fn timer_is_started_for_the_time(state: IdleState, ms: u64, now: u64)
    ensures
        ({
            let stopped = if state.timer_running {
                seq![Message::CancelTimer]
            } else {
                Seq::<Message>::empty()
            };
            &&& state.timer_messages(true, Some(ms)) == stopped.push(
                if ms == 0 {
                    Message::TimeoutNow
                } else {
                    Message::StartTimer { duration_ms: ms }
                },
            )
            &&& state.timer_messages(true, None) == stopped
            &&& state.timer_messages(false, Some(ms)) == stopped
            &&& state.timer_messages(false, None) == stopped
            &&& state.inhibited(true, Some(ms), now).timer_running == (ms > 0)
            &&& !state.inhibited(true, None, now).timer_running
            &&& !state.inhibited(false, Some(ms), now).timer_running
            &&& state.cancel_messages() == stopped
        }),
{
    let stopped = if state.timer_running {
        seq![Message::CancelTimer]
    } else {
        Seq::<Message>::empty()
    };
    assert(state.timer_messages(true, Some(ms)) =~= stopped.push(
        if ms == 0 {
            Message::TimeoutNow
        } else {
            Message::StartTimer { duration_ms: ms }
        },
    ));
    assert(state.timer_messages(true, None) =~= stopped);
    assert(state.timer_messages(false, Some(ms)) =~= stopped);
    assert(state.timer_messages(false, None) =~= stopped);
}

/// The time left is what the clock says, in whole milliseconds.
pub proof fn time_left_follows_the_clock(state: IdleState, ms: u64, now: u64, later: u64)
    requires
        now <= later <= now + ms * 1_000_000,
    ensures
        state.inhibited(true, Some(ms), now).remaining(later) matches Some(left) && left
            * 1_000_000 <= now + ms * 1_000_000 - later < (left + 1) * 1_000_000,
{
    assert(now + ms * NANOS_PER_MS <= u128::MAX);
}

/// A request changes something exactly when the inhibition or the time that was asked for
/// is another one afterwards.
pub proof fn change_is_what_is_asked_for(
    state: IdleState,
    enabled: bool,
    timeout_ms: Option<u64>,
    now: u64,
)
    ensures
        ({
            let after = state.inhibited(enabled, timeout_ms, now);
            &&& after.idle_inhibit == enabled
            &&& enabled ==> after.requested_timeout == timeout_ms
            &&& !enabled ==> after.requested_timeout is None
            &&& state.inhibit_changes(enabled, timeout_ms) <==> state.idle_inhibit
                != after.idle_inhibit || (enabled && state.requested_timeout
                != after.requested_timeout)
        }),
{
}

} // verus!
