//! Idle notifications of the seat.

use vstd::prelude::*;

verus! {

#[derive(Debug, Clone, Copy, PartialEq, Eq, Structural)]
pub enum IdleEvent {
    Idle,
    Active,
}

/// What the compositor's notification object sends.
#[derive(Debug, Clone, Copy, PartialEq, Eq, Structural)]
pub enum Notification {
    Idled,
    Resumed,
    Other,
}

/// The event that a notification stands for, if it does.
pub open spec fn event_of(notification: Notification) -> Option<IdleEvent> {
    match notification {
        Notification::Idled => Some(IdleEvent::Idle),
        Notification::Resumed => Some(IdleEvent::Active),
        Notification::Other => None,
    }
}

/// The event to pass on, if there is one.
pub fn idle_event(notification: Notification) -> (event: Option<IdleEvent>)
    ensures
        event == event_of(notification),
{
    match notification {
        Notification::Idled => Some(IdleEvent::Idle),
        Notification::Resumed => Some(IdleEvent::Active),
        Notification::Other => None,
    }
}

/// The seat becomes idle when the compositor says that it idled, active when it says that
/// it resumed, and on nothing else.
pub proof fn seat_follows_notifications(notification: Notification)
    ensures
        event_of(notification) == Some(IdleEvent::Idle) <==> notification is Idled,
        event_of(notification) == Some(IdleEvent::Active) <==> notification is Resumed,
{
}

} // verus!
