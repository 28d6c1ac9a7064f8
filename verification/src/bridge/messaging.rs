//! What the daemon has to send, in order.

use vstd::prelude::*;

use crate::client::{ClientAddr, ServerRes};
use crate::daemoncomm::{
    CecCommand, CecEvent, CecStatus, ClientDataModel, KinectCommand, KinectEvent, KinectStatus,
    KinectStatusModel, LedCommand, MessageToClient, MessageToClientData,
};
use crate::ids::{nil_id, MessageId};

verus! {

/// Something to be sent.
#[derive(Debug)]
pub enum Outgoing {
    /// A command for the LEDs.
    Led(LedCommand),
    /// An answer to a client.
    Reply(ServerRes),
    /// The screen may deliver the next frame.
    ComputeDone,
    /// A command for the depth camera, on behalf of a client's request.
    Kinect { command: KinectCommand, addr: ClientAddr, id: MessageId },
    /// A command for the television.
    Cec(CecCommand),
    /// Stop the running idle timer.
    CancelTimer,
    /// Start the idle timer.
    StartTimer { duration_ms: u64 },
    /// The idle timer is due at once.
    TimeoutNow,
}

/// The model of [`Outgoing`].
pub enum Message {
    Led(LedCommand),
    Reply { addr: ClientAddr, id: MessageId, data: ClientDataModel },
    ComputeDone,
    Kinect { command: KinectCommand, addr: ClientAddr, id: MessageId },
    Cec(CecCommand),
    CancelTimer,
    StartTimer { duration_ms: u64 },
    TimeoutNow,
}

impl View for Outgoing {
    type V = Message;

    open spec fn view(&self) -> Message {
        match self {
            Outgoing::Led(command) => Message::Led(*command),
            Outgoing::Reply(res) => Message::Reply {
                addr: res.addr,
                id: res.msg.id,
                data: res.msg.data@,
            },
            Outgoing::ComputeDone => Message::ComputeDone,
            Outgoing::Kinect { command, addr, id } => Message::Kinect {
                command: *command,
                addr: *addr,
                id: *id,
            },
            Outgoing::Cec(command) => Message::Cec(*command),
            Outgoing::CancelTimer => Message::CancelTimer,
            Outgoing::StartTimer { duration_ms } => Message::StartTimer {
                duration_ms: *duration_ms,
            },
            Outgoing::TimeoutNow => Message::TimeoutNow,
        }
    }
}

/// The answer `data` to the request `id`.
pub open spec fn reply(addr: ClientAddr, id: MessageId, data: ClientDataModel) -> Message {
    Message::Reply { addr, id, data }
}

pub open spec fn ack(addr: ClientAddr, id: MessageId) -> Message {
    reply(addr, id, ClientDataModel::Ack)
}

pub open spec fn nack(addr: ClientAddr, id: MessageId, reason: Seq<char>) -> Message {
    reply(addr, id, ClientDataModel::Nack { reason })
}

/// The same data for each of the clients, under the nil identifier.
pub open spec fn broadcast_to(addrs: Seq<ClientAddr>, data: ClientDataModel) -> Seq<Message> {
    Seq::new(addrs.len(), |i: int| reply(addrs[i], 0, data))
}

/// A status without a camera.
pub open spec fn unavailable(status: Seq<char>) -> KinectStatusModel {
    KinectStatusModel {
        connected: false,
        status,
        device_serial: None,
        firmware_version: None,
        depth_active: false,
        rgb_active: false,
    }
}

/// What is waiting to be sent.
#[derive(Debug)]
pub struct Messenger {
    outbox: Vec<Outgoing>,
}

impl View for Messenger {
    type V = Seq<Message>;

    closed spec fn view(&self) -> Seq<Message> {
        self.outbox@.map_values(|out: Outgoing| out@)
    }
}

impl Messenger {
    pub fn new() -> (messenger: Self)
        ensures
            messenger@ == Seq::<Message>::empty(),
    {
        let messenger = Messenger { outbox: Vec::new() };
        assert(messenger@ =~= Seq::<Message>::empty());
        messenger
    }

    pub fn push(&mut self, out: Outgoing)
        ensures
            final(self)@ == old(self)@.push(out@),
    {
        self.outbox.push(out);
        assert(self@ =~= old(self)@.push(out@));
    }

    /// Hands out what is waiting.
    pub fn take(&mut self) -> (outbox: Vec<Outgoing>)
        ensures
            outbox@.map_values(|out: Outgoing| out@) == old(self)@,
            final(self)@ == Seq::<Message>::empty(),
    {
        let mut outbox: Vec<Outgoing> = Vec::new();
        std::mem::swap(&mut outbox, &mut self.outbox);
        assert(self@ =~= Seq::<Message>::empty());
        outbox
    }

    pub fn ack(&mut self, addr: ClientAddr, id: MessageId)
        ensures
            final(self)@ == old(self)@.push(self::ack(addr, id)),
    {
        self.send_reply(addr, id, MessageToClientData::Ack);
    }

    pub fn nack(&mut self, addr: ClientAddr, id: MessageId, reason: &str)
        ensures
            final(self)@ == old(self)@.push(self::nack(addr, id, reason@)),
    {
        self.send_reply(addr, id, MessageToClientData::Nack { reason: String::from_str(reason) });
    }

    pub fn send_manual_state(&mut self, addr: ClientAddr, id: MessageId, enabled: bool)
        ensures
            final(self)@ == old(self)@.push(
                reply(addr, id, ClientDataModel::ManualMode { enabled }),
            ),
    {
        self.send_reply(addr, id, MessageToClientData::ManualMode { enabled });
    }

    pub fn send_idle_inhibit_state(
        &mut self,
        addr: ClientAddr,
        id: MessageId,
        enabled: bool,
        timeout_ms: Option<u64>,
    )
        ensures
            final(self)@ == old(self)@.push(
                reply(addr, id, ClientDataModel::IdleInhibit { enabled, timeout_ms }),
            ),
    {
        self.send_reply(addr, id, MessageToClientData::IdleInhibit { enabled, timeout_ms });
    }

    pub fn send_kinect_status(&mut self, addr: ClientAddr, id: MessageId, status: KinectStatus)
        ensures
            final(self)@ == old(self)@.push(
                reply(addr, id, ClientDataModel::KinectStatus(status@)),
            ),
    {
        self.send_reply(addr, id, MessageToClientData::Kinect(KinectEvent::Status(status)));
    }

    /// Answers that there is no camera, for the given reason or a general one.
    pub fn send_kinect_unavailable(
        &mut self,
        addr: ClientAddr,
        id: MessageId,
        reason: Option<String>,
    )
        ensures
            final(self)@ == old(self)@.push(
                reply(
                    addr,
                    id,
                    ClientDataModel::KinectStatus(
                        unavailable(
                            match reason {
                                Some(text) => text@,
                                None => "kinect device unavailable"@,
                            },
                        ),
                    ),
                ),
            ),
    {
        let status = KinectStatus {
            connected: false,
            status: match reason {
                Some(text) => text,
                None => String::from_str("kinect device unavailable"),
            },
            device_serial: None,
            firmware_version: None,
            depth_active: false,
            rgb_active: false,
        };
        self.send_kinect_status(addr, id, status);
    }

    pub fn send_cec_status(&mut self, addr: ClientAddr, id: MessageId, status: CecStatus)
        ensures
            final(self)@ == old(self)@.push(reply(addr, id, ClientDataModel::CecStatus(status))),
    {
        self.send_reply(addr, id, MessageToClientData::Cec(CecEvent::Status(status)));
    }

    pub fn send_led_command(&mut self, command: LedCommand)
        ensures
            final(self)@ == old(self)@.push(Message::Led(command)),
    {
        self.push(Outgoing::Led(command));
    }

    pub fn send_reply(&mut self, addr: ClientAddr, id: MessageId, data: MessageToClientData)
        ensures
            final(self)@ == old(self)@.push(reply(addr, id, data@)),
    {
        self.push(Outgoing::Reply(ServerRes::new(addr, MessageToClient { id, data })));
    }

    /// Sends the same data to each of the clients.
    pub fn broadcast(&mut self, addrs: &Vec<ClientAddr>, data: MessageToClientData)
        ensures
            final(self)@ == old(self)@ + broadcast_to(addrs@, data@),
    {
        let mut i: usize = 0;
        assert(self@ =~= old(self)@ + broadcast_to(addrs@.take(0), data@));
        while i < addrs.len()
            invariant
                i <= addrs@.len(),
                self@ == old(self)@ + broadcast_to(addrs@.take(i as int), data@),
            decreases addrs.len() - i,
        {
            self.send_reply(addrs[i], nil_id(), data.clone());
            i += 1;
            assert(self@ =~= old(self)@ + broadcast_to(addrs@.take(i as int), data@));
        }
        assert(addrs@.take(i as int) =~= addrs@);
    }
}

} // verus!
