//! Which clients are connected and whether they have taken over the LEDs.

use vstd::prelude::*;

use std::collections::HashSet;

use crate::client::{members, ClientAddr};

verus! {

broadcast use vstd::std_specs::hash::group_hash_axioms;

/// The connected clients and the manual mode.
#[derive(Debug)]
pub struct ClientSessions {
    clients: HashSet<ClientAddr>,
    manual_enabled: bool,
}

#[derive(Debug, Clone, Copy, PartialEq, Eq, Structural)]
pub enum DisconnectOutcome {
    Unknown,
    Removed,
    ManualDisabled,
}

#[derive(Debug, Clone, Copy, PartialEq, Eq, Structural)]
pub enum ManualTransition {
    Changed(bool),
    Unchanged(bool),
}

/// The model of [`ClientSessions`].
#[verifier::ext_equal]
pub struct Sessions {
    pub clients: Set<ClientAddr>,
    pub manual: bool,
}

impl Sessions {
    /// How the manual mode changes when it is set.
    pub open spec fn transition_to(self, enabled: bool) -> ManualTransition {
        if self.manual == enabled {
            ManualTransition::Unchanged(enabled)
        } else {
            ManualTransition::Changed(enabled)
        }
    }

    pub open spec fn empty() -> Sessions {
        Sessions { clients: Set::empty(), manual: false }
    }

    pub open spec fn registered(self, addr: ClientAddr) -> Sessions {
        Sessions { clients: self.clients.insert(addr), ..self }
    }

    /// Whether taking `addr` away leaves nobody to hold the manual mode.
    pub open spec fn abandons_manual(self, addr: ClientAddr) -> bool {
        self.clients.contains(addr) && self.clients.remove(addr).is_empty() && self.manual
    }

    pub open spec fn removed(self, addr: ClientAddr) -> Sessions {
        Sessions {
            clients: self.clients.remove(addr),
            manual: self.manual && !self.abandons_manual(addr),
        }
    }

    pub open spec fn remove_outcome(self, addr: ClientAddr) -> DisconnectOutcome {
        if !self.clients.contains(addr) {
            DisconnectOutcome::Unknown
        } else if self.abandons_manual(addr) {
            DisconnectOutcome::ManualDisabled
        } else {
            DisconnectOutcome::Removed
        }
    }

    pub open spec fn with_manual(self, enabled: bool) -> Sessions {
        Sessions { manual: enabled, ..self }
    }

    /// What every state reached from the empty one has: nobody connected means no
    /// manual mode, unless it was enabled for nobody.
    pub open spec fn manual_is_held(self) -> bool {
        self.manual ==> !self.clients.is_empty()
    }
}

impl View for ClientSessions {
    type V = Sessions;

    closed spec fn view(&self) -> Sessions {
        Sessions { clients: self.clients@, manual: self.manual_enabled }
    }
}

impl Default for ClientSessions {
    fn default() -> (sessions: Self)
        ensures
            sessions@ == Sessions::empty(),
    {
        ClientSessions { clients: HashSet::new(), manual_enabled: false }
    }
}

impl ClientSessions {
    pub fn new() -> (sessions: Self)
        ensures
            sessions@ == Sessions::empty(),
    {
        ClientSessions::default()
    }

    /// Adds a client; whether it was not there before.
    pub fn register(&mut self, addr: ClientAddr) -> (added: bool)
        ensures
            final(self)@ == old(self)@.registered(addr),
            added == !old(self)@.clients.contains(addr),
    {
        self.clients.insert(addr)
    }

    /// Takes a client away. The last one to leave ends the manual mode.
    pub fn remove(&mut self, addr: ClientAddr) -> (outcome: DisconnectOutcome)
        ensures
            final(self)@ == old(self)@.removed(addr),
            outcome == old(self)@.remove_outcome(addr),
    {
        let ghost before = self@;
        if !self.clients.remove(&addr) {
            assert(self@ =~= before.removed(addr));
            return DisconnectOutcome::Unknown;
        }
        if self.clients.is_empty() && self.manual_enabled {
            self.manual_enabled = false;
            DisconnectOutcome::ManualDisabled
        } else {
            DisconnectOutcome::Removed
        }
    }

    pub fn manual_enabled(&self) -> (enabled: bool)
        ensures
            enabled == self@.manual,
    {
        self.manual_enabled
    }

    /// Sets the manual mode; whether that changed it.
    pub fn set_manual_enabled(&mut self, enabled: bool) -> (transition: ManualTransition)
        ensures
            final(self)@ == old(self)@.with_manual(enabled),
            transition == old(self)@.transition_to(enabled),
    {
        if self.manual_enabled == enabled {
            ManualTransition::Unchanged(enabled)
        } else {
            self.manual_enabled = enabled;
            ManualTransition::Changed(enabled)
        }
    }

    pub fn client_count(&self) -> (count: usize)
        ensures
            count == self@.clients.len(),
    {
        self.clients.len()
    }

    /// The clients, each once, in no particular order.
    pub fn iter(&self) -> (addrs: Vec<ClientAddr>)
        ensures
            addrs@.no_duplicates(),
            addrs@.to_set() == self@.clients,
    {
        members(&self.clients)
    }
}

impl ManualTransition {
    pub fn changed(&self) -> (changed: bool)
        ensures
            changed == (*self is Changed),
    {
        matches!(self, ManualTransition::Changed(_))
    }

    pub fn enabled(&self) -> (enabled: bool)
        ensures
            enabled == match *self {
                ManualTransition::Changed(state) => state,
                ManualTransition::Unchanged(state) => state,
            },
    {
        match self {
            ManualTransition::Changed(state) => *state,
            ManualTransition::Unchanged(state) => *state,
        }
    }
}

/// However clients come and go, the manual mode does not outlive the last of them:
/// it is only ever on while somebody is connected, provided that it is enabled
/// while somebody is.
pub proof fn manual_mode_ends_with_last_client(
    sessions: Sessions,
    addr: ClientAddr,
    enabled: bool,
)
    requires
        sessions.manual_is_held(),
    ensures
        sessions.registered(addr).manual_is_held(),
        sessions.removed(addr).manual_is_held(),
        sessions.registered(addr).with_manual(enabled).manual_is_held(),
        Sessions::empty().manual_is_held(),
{
    if sessions.removed(addr).manual && sessions.removed(addr).clients.is_empty() {
        if !sessions.clients.contains(addr) {
            assert(sessions.clients.remove(addr) =~= sessions.clients);
        }
    }
    assert(sessions.registered(addr).clients.contains(addr));
}

/// A client that was not connected comes and goes without a trace, as long as
/// somebody else is there or the manual mode is off.
pub proof fn coming_and_going(sessions: Sessions, addr: ClientAddr)
    requires
        !sessions.clients.contains(addr),
        sessions.manual ==> !sessions.clients.is_empty(),
    ensures
        sessions.registered(addr).removed(addr) == sessions,
{
    assert(sessions.clients.insert(addr).remove(addr) =~= sessions.clients);
}

/// A client's leaving is told for what it is: the end of the manual mode exactly where it
/// ends it, nothing known where the client was not there, in which case nothing changes.
/// Only the last client ends the manual mode.
pub proof fn leaving_is_told_for_what_it_is(sessions: Sessions, addr: ClientAddr)
    ensures
        sessions.remove_outcome(addr) == DisconnectOutcome::ManualDisabled <==> sessions.manual
            && !sessions.removed(addr).manual,
        sessions.remove_outcome(addr) == DisconnectOutcome::Unknown
            <==> !sessions.clients.contains(addr),
        !sessions.clients.contains(addr) ==> sessions.removed(addr) == sessions,
        !sessions.removed(addr).clients.contains(addr),
        sessions.manual && !sessions.removed(addr).manual ==> sessions.clients == set![addr],
        sessions.manual && sessions.clients == set![addr] ==> !sessions.removed(addr).manual,
        !sessions.manual ==> !sessions.removed(addr).manual,
{
    if !sessions.clients.contains(addr) {
        assert(sessions.clients.remove(addr) =~= sessions.clients);
    }
    if sessions.abandons_manual(addr) {
        assert forall|other: ClientAddr| sessions.clients.contains(other) implies other == addr by {
            if other != addr {
                assert(sessions.clients.remove(addr).contains(other));
            }
        }
        assert(sessions.clients =~= set![addr]);
    }
    if sessions.clients == set![addr] {
        assert(sessions.clients.remove(addr) =~= Set::<ClientAddr>::empty());
    }
}

/// Coming adds a client and nobody else, and neither that nor switching the manual mode
/// touches the other.
pub proof fn coming_adds_one_client(sessions: Sessions, addr: ClientAddr, enabled: bool)
    ensures
        sessions.registered(addr).clients == sessions.clients.insert(addr),
        sessions.registered(addr).manual == sessions.manual,
        sessions.with_manual(enabled).manual == enabled,
        sessions.with_manual(enabled).clients == sessions.clients,
{
}

/// Setting the manual mode sets it, touches no client and is reported as a change just if it
/// was the other way before.
pub proof fn mode_change_is_told(sessions: Sessions, enabled: bool)
    ensures
        sessions.with_manual(enabled).manual == enabled,
        sessions.with_manual(enabled).clients == sessions.clients,
        sessions.manual == enabled <==> sessions.transition_to(enabled)
            == ManualTransition::Unchanged(enabled),
        sessions.manual != enabled <==> sessions.transition_to(enabled)
            == ManualTransition::Changed(enabled),
        sessions.with_manual(enabled).transition_to(enabled) is Unchanged,
{
}

} // verus!
