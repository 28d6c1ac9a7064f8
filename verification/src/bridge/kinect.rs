//! Answers requests for the depth camera's status.

use vstd::prelude::*;

use crate::bridge::messaging;
use crate::bridge::messaging::{Message, Messenger, Outgoing};
use crate::client::ClientAddr;
use crate::daemoncomm::{
    ClientDataModel, KinectCommand, KinectEvent, KinectStatus, KinectStatusModel,
    MessageToClientData,
};
use crate::ids::MessageId;

verus! {

/// The last status and who waits for one.
#[derive(Debug)]
pub struct KinectHandler {
    last_status: Option<KinectStatus>,
    pending_requests: Vec<(ClientAddr, MessageId)>,
}

/// The model of [`KinectHandler`].
#[verifier::ext_equal]
pub struct KinectRequests {
    pub last_status: Option<KinectStatusModel>,
    pub pending: Seq<(ClientAddr, MessageId)>,
}

impl KinectRequests {
    /// The state after a request for the status, and what is sent for it.
    pub open spec fn asked(self, addr: ClientAddr, id: MessageId) -> (KinectRequests, Message) {
        match self.last_status {
            Some(status) => (
                self,
                messaging::reply(addr, id, ClientDataModel::KinectStatus(status)),
            ),
            None => (
                KinectRequests { pending: self.pending.push((addr, id)), ..self },
                Message::Kinect { command: KinectCommand::RequestStatus, addr, id },
            ),
        }
    }

    /// The state after a status came, and what is sent when these clients are connected.
    pub open spec fn reported(self, status: KinectStatusModel, clients: Seq<ClientAddr>) -> (
        KinectRequests,
        Seq<Message>,
    ) {
        (
            KinectRequests { last_status: Some(status), pending: Seq::empty() },
            answers(self.pending, status) + messaging::broadcast_to(
                clients,
                ClientDataModel::KinectStatus(status),
            ),
        )
    }

    /// Without what is known of this request.
    pub open spec fn forgotten(self, addr: ClientAddr, id: MessageId) -> KinectRequests {
        KinectRequests {
            pending: self.pending.filter(|p: (ClientAddr, MessageId)| p != (addr, id)),
            ..self
        }
    }
}

/// The status as the answer to each of the requests.
pub open spec fn answers(
    requests: Seq<(ClientAddr, MessageId)>,
    status: KinectStatusModel,
) -> Seq<Message> {
    Seq::new(
        requests.len(),
        |i: int|
            messaging::reply(
                requests[i].0,
                requests[i].1,
                ClientDataModel::KinectStatus(status),
            ),
    )
}

impl View for KinectHandler {
    type V = KinectRequests;

    closed spec fn view(&self) -> KinectRequests {
        KinectRequests {
            last_status: match self.last_status {
                Some(status) => Some(status@),
                None => None,
            },
            pending: self.pending_requests@,
        }
    }
}

impl KinectHandler {
    pub fn new() -> (handler: Self)
        ensures
            handler@ == (KinectRequests { last_status: None, pending: Seq::empty() }),
    {
        KinectHandler { last_status: None, pending_requests: Vec::new() }
    }

    /// Answers a request at once if a status is known, and otherwise asks for one.
    pub fn handle_command(
        &mut self,
        addr: ClientAddr,
        id: MessageId,
        command: KinectCommand,
        messenger: &mut Messenger,
    )
        ensures
            final(self)@ == old(self)@.asked(addr, id).0,
            final(messenger)@ == old(messenger)@.push(old(self)@.asked(addr, id).1),
            old(self)@.last_status is Some ==> *final(self) == *old(self),
    {
        match command {
            KinectCommand::RequestStatus => {
                match &self.last_status {
                    Some(status) => {
                        messenger.send_kinect_status(addr, id, status.clone());
                    },
                    None => {
                        self.pending_requests.push((addr, id));
                        messenger.push(
                            Outgoing::Kinect { command: KinectCommand::RequestStatus, addr, id },
                        );
                    },
                }
            },
        }
    }

    /// Nobody took the command that was sent for this request: the client is told
    /// that there is no camera.
    pub fn command_refused(&mut self, addr: ClientAddr, id: MessageId, messenger: &mut Messenger)
        ensures
            final(self)@ == old(self)@.forgotten(addr, id),
            final(messenger)@ == old(messenger)@.push(
                messaging::reply(
                    addr,
                    id,
                    ClientDataModel::KinectStatus(
                        messaging::unavailable("kinect command channel closed"@),
                    ),
                ),
            ),
    {
        let ghost keep = |p: (ClientAddr, MessageId)| p != (addr, id);
        let mut kept: Vec<(ClientAddr, MessageId)> = Vec::new();
        let mut i: usize = 0;
        assert(self.pending_requests@.take(0).filter(keep) =~= Seq::empty()) by {
            reveal(Seq::filter);
        }
        while i < self.pending_requests.len()
            invariant
                i <= self.pending_requests@.len(),
                *self == *old(self),
                keep == (|p: (ClientAddr, MessageId)| p != (addr, id)),
                kept@ == self.pending_requests@.take(i as int).filter(keep),
            decreases self.pending_requests.len() - i,
        {
            let (a, n) = self.pending_requests[i];
            if !(a == addr && n == id) {
                kept.push((a, n));
            }
            proof {
                let longer = self.pending_requests@.take(i + 1);
                assert(longer.drop_last() =~= self.pending_requests@.take(i as int));
                reveal(Seq::filter);
            }
            i += 1;
        }
        assert(self.pending_requests@.take(i as int) =~= self.pending_requests@);
        self.pending_requests = kept;
        messenger.send_kinect_unavailable(
            addr,
            id,
            Some(String::from_str("kinect command channel closed")),
        );
    }

    /// Remembers a status, answers everybody who waits for one and tells all
    /// clients.
    pub fn handle_event(
        &mut self,
        event: KinectEvent,
        clients: &Vec<ClientAddr>,
        messenger: &mut Messenger,
    )
        ensures
            event matches KinectEvent::Status(status) && {
                &&& final(self)@ == old(self)@.reported(status@, clients@).0
                &&& final(messenger)@ == old(messenger)@ + old(self)@.reported(status@, clients@).1
            },
    {
        match event {
            KinectEvent::Status(status) => {
                self.last_status = Some(status.clone());
                let mut pending: Vec<(ClientAddr, MessageId)> = Vec::new();
                std::mem::swap(&mut pending, &mut self.pending_requests);
                let mut i: usize = 0;
                assert(messenger@ =~= old(messenger)@ + answers(pending@.take(0), status@));
                while i < pending.len()
                    invariant
                        i <= pending@.len(),
                        messenger@ == old(messenger)@ + answers(
                            pending@.take(i as int),
                            status@,
                        ),
                    decreases pending.len() - i,
                {
                    let (addr, id) = pending[i];
                    messenger.send_kinect_status(addr, id, status.clone());
                    i += 1;
                    assert(messenger@ =~= old(messenger)@ + answers(
                        pending@.take(i as int),
                        status@,
                    ));
                }
                assert(pending@.take(i as int) =~= pending@);
                let ghost shared = messaging::broadcast_to(
                    clients@,
                    ClientDataModel::KinectStatus(status@),
                );
                assert(old(messenger)@ + answers(pending@, status@) + shared =~= old(messenger)@ + (
                answers(pending@, status@) + shared));
                messenger.broadcast(
                    clients,
                    MessageToClientData::Kinect(KinectEvent::Status(status)),
                );
            },
        }
    }
}

/// A request that nobody took is no longer waiting, and every other one still is, in its
/// order.
pub proof fn only_refused_request_is_forgotten(
    requests: KinectRequests,
    addr: ClientAddr,
    id: MessageId,
    other: (ClientAddr, MessageId),
)
    ensures
        ({
            let after = requests.forgotten(addr, id);
            &&& !after.pending.contains((addr, id))
            &&& other != (addr, id) ==> after.pending.contains(other)
                == requests.pending.contains(other)
            &&& after.last_status == requests.last_status
            &&& !requests.pending.contains((addr, id)) ==> after.pending == requests.pending
        }),
{
    let keep = |p: (ClientAddr, MessageId)| p != (addr, id);
    filter_keeps_others(requests.pending, keep, (addr, id));
    filter_keeps_others(requests.pending, keep, other);
    if !requests.pending.contains((addr, id)) {
        filter_of_kept(requests.pending, keep);
    }
}

proof fn filter_keeps_others(
    s: Seq<(ClientAddr, MessageId)>,
    keep: spec_fn((ClientAddr, MessageId)) -> bool,
    other: (ClientAddr, MessageId),
)
    ensures
        s.filter(keep).contains(other) == (keep(other) && s.contains(other)),
    decreases s.len(),
{
    reveal(Seq::filter);
    if s.len() > 0 {
        let rest = s.drop_last();
        filter_keeps_others(rest, keep, other);
        let filtered = rest.filter(keep);
        if s.contains(other) && s.last() != other {
            let k = choose|k: int| 0 <= k < s.len() && s[k] == other;
            assert(rest[k] == other);
        }
        if rest.contains(other) {
            let k = choose|k: int| 0 <= k < rest.len() && rest[k] == other;
            assert(s[k] == other);
        }
        if keep(s.last()) {
            let longer = filtered.push(s.last());
            assert(longer.last() == s.last());
            if filtered.contains(other) {
                let k = choose|k: int| 0 <= k < filtered.len() && filtered[k] == other;
                assert(longer[k] == other);
            }
            if longer.contains(other) && other != s.last() {
                let k = choose|k: int| 0 <= k < longer.len() && longer[k] == other;
                assert(filtered[k] == other);
            }
            assert(longer[filtered.len() as int] == s.last());
        }
        assert(s.contains(s.last()));
    }
}

proof fn filter_of_kept(
    s: Seq<(ClientAddr, MessageId)>,
    keep: spec_fn((ClientAddr, MessageId)) -> bool,
)
    requires
        forall|i: int| 0 <= i < s.len() ==> keep(#[trigger] s[i]),
    ensures
        s.filter(keep) == s,
    decreases s.len(),
{
    reveal(Seq::filter);
    if s.len() > 0 {
        filter_of_kept(s.drop_last(), keep);
        assert(keep(s[s.len() - 1]));
        assert(s.drop_last().push(s.last()) =~= s);
    }
}

/// Whoever asks for the camera's status before there is one is answered, under the request's
/// own identifier, when the next one comes; whoever asks later is answered at once with the
/// status that came last.
pub proof fn camera_status_answers_everybody(
    requests: KinectRequests,
    addr: ClientAddr,
    id: MessageId,
    status: KinectStatusModel,
    clients: Seq<ClientAddr>,
)
    requires
        requests.last_status is None,
    ensures
        ({
            let (waiting, asking) = requests.asked(addr, id);
            let (served, sent) = waiting.reported(status, clients);
            let n = requests.pending.len() as int;
            &&& asking == (Message::Kinect { command: KinectCommand::RequestStatus, addr, id })
            &&& sent.len() == n + 1 + clients.len()
            &&& sent[n] == (Message::Reply {
                addr,
                id,
                data: ClientDataModel::KinectStatus(status),
            })
            &&& forall|i: int|
                0 <= i < n ==> #[trigger] sent[i] == (Message::Reply {
                    addr: requests.pending[i].0,
                    id: requests.pending[i].1,
                    data: ClientDataModel::KinectStatus(status),
                })
            &&& forall|i: int|
                0 <= i < clients.len() ==> #[trigger] sent[n + 1 + i] == (Message::Reply {
                    addr: clients[i],
                    id: 0,
                    data: ClientDataModel::KinectStatus(status),
                })
            &&& served.pending.len() == 0
            &&& served.asked(addr, id) == (
                served,
                (Message::Reply { addr, id, data: ClientDataModel::KinectStatus(status) }),
            )
        }),
{
    let waiting = requests.asked(addr, id).0;
    let n = requests.pending.len() as int;
    assert(waiting.pending[n] == (addr, id));
    assert(forall|i: int| 0 <= i < n ==> waiting.pending[i] == requests.pending[i]);
}

} // verus!
