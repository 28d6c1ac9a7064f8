//! Passes clients' requests on to the television.

use vstd::prelude::*;

use crate::bridge::messaging;
use crate::bridge::messaging::{Message, Messenger, Outgoing};
use crate::client::ClientAddr;
use crate::daemoncomm::{CecCommand, CecEvent, CecStatus, ClientDataModel, MessageToClientData};
use crate::ids::MessageId;

verus! {

/// The last status and who waits for one.
#[derive(Debug)]
pub struct CecController {
    last_status: Option<CecStatus>,
    pending_status: Vec<(ClientAddr, MessageId)>,
}

/// The model of [`CecController`].
#[verifier::ext_equal]
pub struct CecRequests {
    pub last_status: Option<CecStatus>,
    pub pending: Seq<(ClientAddr, MessageId)>,
}

/// The status and an acknowledgement for each of the requests.
pub open spec fn answers(requests: Seq<(ClientAddr, MessageId)>, status: CecStatus) -> Seq<Message> {
    Seq::new(
        2 * requests.len(),
        |i: int|
            {
                let (addr, id) = requests[i / 2];
                if i % 2 == 0 {
                    messaging::reply(addr, id, ClientDataModel::CecStatus(status))
                } else {
                    messaging::ack(addr, id)
                }
            },
    )
}

impl CecRequests {
    /// After a client's command, and what is sent then: a question for the status is
    /// answered at once if one is known.
    pub open spec fn asked(self, addr: ClientAddr, id: MessageId, command: CecCommand) -> (
        CecRequests,
        Seq<Message>,
    ) {
        if command == CecCommand::RequestStatus && self.last_status is Some {
            (self, answers(seq![(addr, id)], self.last_status->Some_0))
        } else if command == CecCommand::RequestStatus {
            (
                CecRequests { pending: self.pending.push((addr, id)), ..self },
                seq![Message::Cec(command)],
            )
        } else {
            (self, seq![Message::Cec(command)])
        }
    }

    /// After a command was handed to the television's task, or could not be, and what is
    /// sent then.
    pub open spec fn handed_on(
        self,
        addr: ClientAddr,
        id: MessageId,
        command: CecCommand,
        accepted: bool,
    ) -> (CecRequests, Seq<Message>) {
        let question = command == CecCommand::RequestStatus;
        (
            if question && !accepted && self.pending.len() > 0 {
                CecRequests { pending: self.pending.drop_last(), ..self }
            } else {
                self
            },
            if !accepted {
                seq![messaging::nack(addr, id, "cec_unavailable"@)]
            } else if question {
                Seq::empty()
            } else {
                seq![messaging::ack(addr, id)]
            },
        )
    }

    /// After the television reported its status, and what is sent then to these clients.
    pub open spec fn reported(self, status: CecStatus, clients: Seq<ClientAddr>) -> (
        CecRequests,
        Seq<Message>,
    ) {
        (
            CecRequests { last_status: Some(status), pending: Seq::empty() },
            answers(self.pending, status) + messaging::broadcast_to(
                clients,
                ClientDataModel::CecStatus(status),
            ),
        )
    }
}

impl View for CecController {
    type V = CecRequests;

    closed spec fn view(&self) -> CecRequests {
        CecRequests { last_status: self.last_status, pending: self.pending_status@ }
    }
}

impl CecController {
    pub fn new() -> (controller: Self)
        ensures
            controller@ == (CecRequests { last_status: None, pending: Seq::empty() }),
    {
        CecController { last_status: None, pending_status: Vec::new() }
    }

    /// Takes in what the television reports: a status answers everybody who waits
    /// for one, and all clients are told.
    pub fn handle_event(
        &mut self,
        event: CecEvent,
        clients: &Vec<ClientAddr>,
        messenger: &mut Messenger,
    ) -> (status: Option<CecStatus>)
        ensures
            match event {
                CecEvent::Status(new) => {
                    &&& status == Some(new)
                    &&& final(self)@ == old(self)@.reported(new, clients@).0
                    &&& final(messenger)@ == old(messenger)@ + old(self)@.reported(new, clients@).1
                },
                CecEvent::Error { message } => {
                    &&& status is None
                    &&& *final(self) == *old(self)
                    &&& final(messenger)@ == old(messenger)@ + messaging::broadcast_to(
                        clients@,
                        ClientDataModel::CecError { message: message@ },
                    )
                },
            },
    {
        match event {
            CecEvent::Status(status) => {
                self.last_status = Some(status);
                let mut pending: Vec<(ClientAddr, MessageId)> = Vec::new();
                std::mem::swap(&mut pending, &mut self.pending_status);
                let mut i: usize = 0;
                assert(messenger@ =~= old(messenger)@ + answers(pending@.take(0), status));
                while i < pending.len()
                    invariant
                        i <= pending@.len(),
                        messenger@ == old(messenger)@ + answers(pending@.take(i as int), status),
                    decreases pending.len() - i,
                {
                    let (addr, id) = pending[i];
                    messenger.send_cec_status(addr, id, status);
                    messenger.ack(addr, id);
                    i += 1;
                    assert(messenger@ =~= old(messenger)@ + answers(
                        pending@.take(i as int),
                        status,
                    ));
                }
                assert(pending@.take(i as int) =~= pending@);
                messenger.broadcast(clients, MessageToClientData::Cec(CecEvent::Status(status)));
                assert(messenger@ =~= old(messenger)@ + old(self)@.reported(status, clients@).1);
                Some(status)
            },
            CecEvent::Error { message } => {
                messenger.broadcast(clients, MessageToClientData::Cec(CecEvent::Error { message }));
                None
            },
        }
    }

    /// Answers a request for the status at once if one is known; anything else is
    /// sent on, and answered when [`Self::command_sent`] says how that went.
    pub fn handle_client_command(
        &mut self,
        addr: ClientAddr,
        id: MessageId,
        command: CecCommand,
        messenger: &mut Messenger,
    ) -> (sent_on: bool)
        ensures
            sent_on == !(command == CecCommand::RequestStatus && old(self)@.last_status is Some),
            !sent_on ==> *final(self) == *old(self),
            final(self)@ == old(self)@.asked(addr, id, command).0,
            final(messenger)@ == old(messenger)@ + old(self)@.asked(addr, id, command).1,
    {
        if let CecCommand::RequestStatus = command {
            if let Some(status) = self.last_status {
                messenger.send_cec_status(addr, id, status);
                messenger.ack(addr, id);
                assert(messenger@ =~= old(messenger)@ + answers(seq![(addr, id)], status));
                return false;
            }
            self.pending_status.push((addr, id));
        }
        messenger.push(Outgoing::Cec(command));
        true
    }

    /// Answers a command that was sent on: a request for the status waits for one,
    /// anything else is acknowledged, and nothing is if nobody took it.
    pub fn command_sent(
        &mut self,
        addr: ClientAddr,
        id: MessageId,
        command: CecCommand,
        accepted: bool,
        messenger: &mut Messenger,
    )
        ensures
            final(self)@ == old(self)@.handed_on(addr, id, command, accepted).0,
            final(messenger)@ == old(messenger)@ + old(self)@.handed_on(
                addr,
                id,
                command,
                accepted,
            ).1,
    {
        if !accepted {
            if let CecCommand::RequestStatus = command {
                let _ = self.pending_status.pop();
                assert(old(self)@.pending.len() > 0 ==> self@.pending
                    =~= old(self)@.pending.drop_last());
            }
            messenger.nack(addr, id, "cec_unavailable");
        } else {
            match command {
                CecCommand::RequestStatus => {},
                _ => messenger.ack(addr, id),
            }
        }
    }

    pub fn request_status(&self, messenger: &mut Messenger)
        ensures
            final(messenger)@ == old(messenger)@.push(Message::Cec(CecCommand::RequestStatus)),
    {
        messenger.push(Outgoing::Cec(CecCommand::RequestStatus));
    }

    pub fn power_on(&self, messenger: &mut Messenger)
        ensures
            final(messenger)@ == old(messenger)@.push(Message::Cec(CecCommand::PowerOn)),
    {
        messenger.push(Outgoing::Cec(CecCommand::PowerOn));
    }

    pub fn power_off(&self, messenger: &mut Messenger)
        ensures
            final(messenger)@ == old(messenger)@.push(Message::Cec(CecCommand::PowerOff)),
    {
        messenger.push(Outgoing::Cec(CecCommand::PowerOff));
    }
}

/// A question for the status is answered in any case: at once where a status is known, with
/// a refusal where nobody takes it, and with the next status otherwise. Each answer goes to
/// the client that asked, under its identifier, and is followed by an acknowledgement.
pub proof fn questions_for_the_status_are_answered(
    requests: CecRequests,
    addr: ClientAddr,
    id: MessageId,
    status: CecStatus,
    clients: Seq<ClientAddr>,
)
    ensures
        ({
            let (waiting, sent) = requests.asked(addr, id, CecCommand::RequestStatus);
            let (refused, refusal) = waiting.handed_on(
                addr,
                id,
                CecCommand::RequestStatus,
                false,
            );
            let (taken, nothing) = waiting.handed_on(addr, id, CecCommand::RequestStatus, true);
            let (after, told) = taken.reported(status, clients);
            let n = 2 * requests.pending.len() as int;
            &&& requests.last_status matches Some(known) ==> waiting == requests && sent == seq![
                Message::Reply { addr, id, data: ClientDataModel::CecStatus(known) },
                Message::Reply { addr, id, data: ClientDataModel::Ack },
            ]
            &&& requests.last_status is None ==> {
                &&& sent == seq![Message::Cec(CecCommand::RequestStatus)]
                &&& refused == requests
                &&& refusal == seq![
                    Message::Reply {
                        addr,
                        id,
                        data: ClientDataModel::Nack { reason: "cec_unavailable"@ },
                    },
                ]
                &&& nothing.len() == 0
                &&& taken == waiting
                &&& told[n] == (Message::Reply {
                    addr,
                    id,
                    data: ClientDataModel::CecStatus(status),
                })
                &&& told[n + 1] == (Message::Reply { addr, id, data: ClientDataModel::Ack })
            }
            &&& after.last_status == Some(status)
            &&& after.pending.len() == 0
        }),
{
    let (waiting, sent) = requests.asked(addr, id, CecCommand::RequestStatus);
    if let Some(known) = requests.last_status {
        assert(sent =~= seq![
            Message::Reply { addr, id, data: ClientDataModel::CecStatus(known) },
            Message::Reply { addr, id, data: ClientDataModel::Ack },
        ]);
    } else {
        assert(requests.pending.push((addr, id)).drop_last() =~= requests.pending);
    }
}

/// Everybody who waits is answered by the next status, in the order in which they asked, and
/// then each client is told once.
pub proof fn next_status_answers_everybody(
    requests: CecRequests,
    status: CecStatus,
    clients: Seq<ClientAddr>,
    i: int,
    k: int,
)
    requires
        0 <= i < requests.pending.len(),
        0 <= k < clients.len(),
    ensures
        ({
            let told = requests.reported(status, clients).1;
            let n = 2 * requests.pending.len() as int;
            let (addr, id) = requests.pending[i];
            &&& told.len() == n + clients.len()
            &&& told[2 * i] == (Message::Reply {
                addr,
                id,
                data: ClientDataModel::CecStatus(status),
            })
            &&& told[2 * i + 1] == (Message::Reply { addr, id, data: ClientDataModel::Ack })
            &&& told[n + k] == (Message::Reply {
                addr: clients[k],
                id: 0,
                data: ClientDataModel::CecStatus(status),
            })
        }),
{
    assert((2 * i) / 2 == i && (2 * i + 1) / 2 == i);
}

/// Any other command is sent on as it is, and its client is told whether it was taken.
pub proof fn commands_are_sent_on(
    requests: CecRequests,
    addr: ClientAddr,
    id: MessageId,
    command: CecCommand,
)
    requires
        command != CecCommand::RequestStatus,
    ensures
        requests.asked(addr, id, command) == (requests, seq![Message::Cec(command)]),
        requests.handed_on(addr, id, command, true) == (
            requests,
            seq![Message::Reply { addr, id, data: ClientDataModel::Ack }],
        ),
        requests.handed_on(addr, id, command, false) == (
            requests,
            seq![
                Message::Reply {
                    addr,
                    id,
                    data: ClientDataModel::Nack { reason: "cec_unavailable"@ },
                },
            ],
        ),
{
}

} // verus!
