//! Routing between the client connections and the daemon.

use vstd::prelude::*;

use std::collections::HashSet;

use crate::client::{members, ClientAddr, ClientReq, ClientReqData, ServerRes};
use crate::daemoncomm::{MessageToClient, MessageToServer};

verus! {

broadcast use vstd::std_specs::hash::group_hash_axioms;

/// What a connection reports to the manager.
#[derive(Debug, Clone, Copy)]
pub struct ClientConnEvent {
    pub addr: ClientAddr,
    pub data: ClientConnEventData,
}

#[derive(Debug, Clone, Copy)]
pub enum ClientConnEventData {
    Message(MessageToServer),
    Disconnect,
}

/// What the manager's loop met.
#[derive(Debug)]
pub enum ComEvent {
    /// Somebody connected.
    Accepted(ClientAddr),
    /// A connection could not be accepted.
    AcceptFailed,
    /// A connection reported something.
    Client(ClientConnEvent),
    /// The daemon answers a client.
    Response(ServerRes),
    /// The daemon shuts down.
    Cancelled,
}

/// What the manager does about it.
#[derive(Debug)]
pub enum ComAction {
    /// Start serving the connection.
    Serve(ClientAddr),
    /// Hand the request to the daemon.
    Forward(ClientReq),
    /// Hand the message to the connection.
    Deliver(ServerRes),
    /// Stop serving the connection and wait until it has ended.
    Drop(ClientAddr),
    /// Cancel every connection in this list, then wait for each of them.
    Drain(Vec<ClientAddr>),
}

/// The manager of the connections.
#[derive(Debug)]
pub struct ComMan {
    clients: HashSet<ClientAddr>,
}

/// What is done about the event of a connection, when these clients are connected.
pub open spec fn client_actions(clients: Set<ClientAddr>, event: ClientConnEvent) -> Seq<
    ComAction,
> {
    let addr = event.addr;
    match event.data {
        ClientConnEventData::Message(msg) => seq![
            ComAction::Forward(ClientReq { addr, data: ClientReqData::Message(msg) }),
        ],
        ClientConnEventData::Disconnect => seq![
            ComAction::Forward(ClientReq { addr, data: ClientReqData::Disconnected }),
        ] + (if clients.contains(addr) {
            seq![ComAction::Drop(addr)]
        } else {
            seq![]
        }),
    }
}

/// The clients that are connected after the event of a connection.
pub open spec fn clients_after(clients: Set<ClientAddr>, event: ClientConnEvent) -> Set<ClientAddr> {
    match event.data {
        ClientConnEventData::Message(msg) => clients,
        ClientConnEventData::Disconnect => clients.remove(event.addr),
    }
}

/// What is done about the daemon's answer.
pub open spec fn response_actions(clients: Set<ClientAddr>, res: ServerRes) -> Seq<ComAction> {
    if clients.contains(res.addr) {
        seq![ComAction::Deliver(res)]
    } else {
        seq![]
    }
}

/// Whether these are the clients after an event, and what is done about it.
pub open spec fn manages(
    clients: Set<ClientAddr>,
    event: ComEvent,
    after: Set<ClientAddr>,
    actions: Seq<ComAction>,
) -> bool {
    match event {
        ComEvent::Accepted(addr) => {
            &&& after =~= clients.insert(addr)
            &&& actions =~= seq![ComAction::Serve(addr)]
        },
        ComEvent::AcceptFailed => {
            &&& after =~= clients
            &&& actions =~= Seq::<ComAction>::empty()
        },
        ComEvent::Client(event) => {
            &&& after =~= clients_after(clients, event)
            &&& actions =~= client_actions(clients, event)
        },
        ComEvent::Response(res) => {
            &&& after =~= clients
            &&& actions =~= response_actions(clients, res)
        },
        ComEvent::Cancelled => {
            &&& after =~= Set::<ClientAddr>::empty()
            &&& actions.len() == 1
            &&& actions[0] is Drain
            &&& actions[0]->Drain_0@.no_duplicates()
            &&& actions[0]->Drain_0@.to_set() =~= clients
        },
    }
}

impl View for ComMan {
    type V = Set<ClientAddr>;

    closed spec fn view(&self) -> Set<ClientAddr> {
        self.clients@
    }
}

impl ComMan {
    pub fn new() -> (com: Self)
        ensures
            com@ == Set::<ClientAddr>::empty(),
    {
        ComMan { clients: HashSet::new() }
    }

    /// Decides what to do about an event. A connection that ends is reported to the
    /// daemon; an answer to a client that is not connected is dropped.
    pub fn step(&mut self, event: ComEvent) -> (actions: Vec<ComAction>)
        ensures
            manages(old(self)@, event, final(self)@, actions@),
    {
        let mut actions: Vec<ComAction> = Vec::new();
        match event {
            ComEvent::Accepted(addr) => {
                self.clients.insert(addr);
                actions.push(ComAction::Serve(addr));
            },
            ComEvent::AcceptFailed => {},
            ComEvent::Client(event) => match event.data {
                ClientConnEventData::Message(msg) => {
                    actions.push(ComAction::Forward(ClientReq::new(event.addr, msg)));
                },
                ClientConnEventData::Disconnect => {
                    let addr = event.addr;
                    actions.push(
                        ComAction::Forward(ClientReq { addr, data: ClientReqData::Disconnected }),
                    );
                    if self.clients.remove(&addr) {
                        actions.push(ComAction::Drop(addr));
                    }
                },
            },
            ComEvent::Response(res) => {
                if self.clients.contains(&res.addr) {
                    actions.push(ComAction::Deliver(res));
                }
            },
            ComEvent::Cancelled => {
                let connected = members(&self.clients);
                self.clients.clear();
                actions.push(ComAction::Drain(connected));
            },
        }
        actions
    }
}

/// What one connection's loop met.
#[derive(Debug)]
pub enum ConnEvent {
    /// The manager has a message for the client; whether it could be written is
    /// the connection's own business.
    Outgoing(MessageToClient),
    /// The client sent a message.
    Incoming(MessageToServer),
    /// What the client sent could not be understood.
    DecodeError,
    /// The client is gone.
    Closed,
    /// The connection is to end.
    Cancelled,
}

/// What the connection does about it.
#[derive(Debug)]
pub enum ConnAction {
    Write(MessageToClient),
    Report(ClientConnEvent),
    Continue,
    /// Report and end.
    ReportAndStop(ClientConnEvent),
    Stop,
}

/// One client's connection.
#[derive(Debug, Clone, Copy)]
pub struct ClientConn {
    pub addr: ClientAddr,
}

/// What the connection from an address does about an event.
pub open spec fn conn_action(addr: ClientAddr, event: ConnEvent) -> ConnAction {
    match event {
        ConnEvent::Outgoing(msg) => ConnAction::Write(msg),
        ConnEvent::Incoming(msg) => ConnAction::Report(
            ClientConnEvent { addr, data: ClientConnEventData::Message(msg) },
        ),
        ConnEvent::DecodeError => ConnAction::Continue,
        ConnEvent::Closed => ConnAction::ReportAndStop(
            ClientConnEvent { addr, data: ClientConnEventData::Disconnect },
        ),
        ConnEvent::Cancelled => ConnAction::Stop,
    }
}

impl ClientConn {
    pub fn new(addr: ClientAddr) -> (conn: Self)
        ensures
            conn.addr == addr,
    {
        ClientConn { addr }
    }

    /// Decides what to do about an event. Only the client's leaving and a
    /// cancellation end the connection.
    pub fn step(&self, event: ConnEvent) -> (action: ConnAction)
        ensures
            action == conn_action(self.addr, event),
    {
        match event {
            ConnEvent::Outgoing(msg) => ConnAction::Write(msg),
            ConnEvent::Incoming(msg) => ConnAction::Report(self.event_from_msg(msg)),
            ConnEvent::DecodeError => ConnAction::Continue,
            ConnEvent::Closed => ConnAction::ReportAndStop(self.disconnect_event()),
            ConnEvent::Cancelled => ConnAction::Stop,
        }
    }

    pub fn event_from_msg(&self, msg: MessageToServer) -> (event: ClientConnEvent)
        ensures
            event == (ClientConnEvent {
                addr: self.addr,
                data: ClientConnEventData::Message(msg),
            }),
    {
        ClientConnEvent { addr: self.addr, data: ClientConnEventData::Message(msg) }
    }

    pub fn disconnect_event(&self) -> (event: ClientConnEvent)
        ensures
            event == (ClientConnEvent { addr: self.addr, data: ClientConnEventData::Disconnect }),
    {
        ClientConnEvent { addr: self.addr, data: ClientConnEventData::Disconnect }
    }
}

/// What a client sends reaches the daemon as it is, under its identifier and with the
/// address that it came from.
pub proof fn request_reaches_daemon(
    clients: Set<ClientAddr>,
    addr: ClientAddr,
    msg: MessageToServer,
)
    ensures
        conn_action(addr, ConnEvent::Incoming(msg)) matches ConnAction::Report(event)
            && client_actions(clients, event) == seq![
            ComAction::Forward(ClientReq { addr, data: ClientReqData::Message(msg) }),
        ] && clients_after(clients, event) == clients,
{
}

/// What the daemon answers reaches the client that it is for, and only that one, as it is.
pub proof fn answer_reaches_client(
    clients: Set<ClientAddr>,
    addr: ClientAddr,
    msg: MessageToClient,
)
    ensures
        clients.contains(addr) ==> response_actions(clients, ServerRes { addr, msg }) == seq![
            ComAction::Deliver(ServerRes { addr, msg }),
        ],
        !clients.contains(addr) ==> response_actions(clients, ServerRes { addr, msg }).len() == 0,
        conn_action(addr, ConnEvent::Outgoing(msg)) == ConnAction::Write(msg),
{
}

/// A client that leaves is reported to the daemon before its connection is dropped, and
/// nothing is delivered to it any more.
pub proof fn leaving_is_reported(clients: Set<ClientAddr>, addr: ClientAddr, msg: MessageToClient)
    requires
        clients.contains(addr),
    ensures
        conn_action(addr, ConnEvent::Closed) matches ConnAction::ReportAndStop(event)
            && client_actions(clients, event) == seq![
            ComAction::Forward(ClientReq { addr, data: ClientReqData::Disconnected }),
            ComAction::Drop(addr),
        ] && response_actions(clients_after(clients, event), ServerRes { addr, msg }).len() == 0,
{
    let event = ClientConnEvent { addr, data: ClientConnEventData::Disconnect };
    assert(client_actions(clients, event) =~= seq![
        ComAction::Forward(ClientReq { addr, data: ClientReqData::Disconnected }),
        ComAction::Drop(addr),
    ]);
}

/// A connection ends only when the client leaves or it is cancelled; what cannot be
/// understood is passed over.
pub proof fn connection_outlives_nonsense(addr: ClientAddr, event: ConnEvent)
    ensures
        conn_action(addr, event) is ReportAndStop || conn_action(addr, event) is Stop
            <==> event is Closed || event is Cancelled,
        event is DecodeError ==> conn_action(addr, event) is Continue,
        conn_action(addr, event) matches ConnAction::Report(report) ==> report.addr == addr,
        conn_action(addr, event) matches ConnAction::ReportAndStop(report) ==> report.addr == addr
            && report.data is Disconnect,
{
}

/// What one client does never drops another one or reaches the daemon under another's
/// address.
pub proof fn clients_act_for_themselves(
    clients: Set<ClientAddr>,
    event: ClientConnEvent,
    other: ClientAddr,
    i: int,
)
    requires
        other != event.addr,
        0 <= i < client_actions(clients, event).len(),
    ensures
        clients_after(clients, event).contains(other) == clients.contains(other),
        match client_actions(clients, event)[i] {
            ComAction::Forward(req) => req.addr == event.addr,
            ComAction::Drop(addr) => addr == event.addr && event.data is Disconnect,
            _ => false,
        },
        client_actions(clients, event)[0] is Forward,
        event.data is Disconnect ==> !clients_after(clients, event).contains(event.addr),
{
}

/// A client that was accepted is served, and from then on gets its answers.
pub proof fn accepted_client_is_served(
    clients: Set<ClientAddr>,
    addr: ClientAddr,
    msg: MessageToClient,
    served: Set<ClientAddr>,
    serving: Seq<ComAction>,
    after: Set<ClientAddr>,
    actions: Seq<ComAction>,
)
    requires
        manages(clients, ComEvent::Accepted(addr), served, serving),
        manages(served, ComEvent::Response(ServerRes { addr, msg }), after, actions),
    ensures
        serving == seq![ComAction::Serve(addr)],
        actions == seq![ComAction::Deliver(ServerRes { addr, msg })],
        after == served,
        forall|other: ClientAddr|
            other != addr ==> (served.contains(other) <==> clients.contains(other)),
{
}

/// When the daemon shuts down, every client's connection is ended, each once, and nobody is
/// connected any more. A connection that could not be accepted concerns nobody.
pub proof fn shutdown_ends_every_connection(
    clients: Set<ClientAddr>,
    after: Set<ClientAddr>,
    actions: Seq<ComAction>,
    addr: ClientAddr,
)
    requires
        manages(clients, ComEvent::Cancelled, after, actions),
    ensures
        actions.len() == 1,
        actions[0] matches ComAction::Drain(ended) && ended@.no_duplicates() && (ended@.contains(
            addr,
        ) <==> clients.contains(addr)),
        !after.contains(addr),
        forall|next: Set<ClientAddr>, done: Seq<ComAction>|
            #[trigger] manages(clients, ComEvent::AcceptFailed, next, done) ==> next == clients
                && done.len() == 0,
{
    let ended = actions[0]->Drain_0;
    assert(ended@.to_set().contains(addr) <==> ended@.contains(addr));
}

} // verus!
