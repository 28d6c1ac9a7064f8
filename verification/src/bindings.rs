//! What the client's bindings to other languages decide.

use vstd::prelude::*;

use crate::daemoncomm::client::{prepare, sent, ClientError};
use crate::daemoncomm::{MessageToClient, MessageToServer, MessageToServerData};
use crate::ids;
use crate::ids::{id_text, MessageId};

verus! {

/// How many messages a slow subscriber can lag behind.
pub const BROADCAST_CAPACITY: usize = 64;

#[derive(Debug)]
pub enum BindingError {
    Client(ClientError),
    /// What was handed in is no message; the cause as text.
    Json(String),
    NotConnected,
}

impl BindingError {
    /// The error as text; `cause` is the text of what a client reported.
    pub open spec fn text(&self, cause: Seq<char>) -> Seq<char> {
        match *self {
            BindingError::Client(_) => cause,
            BindingError::Json(reason) => reason@,
            BindingError::NotConnected => "client not connected"@,
        }
    }

    /// The error as text; `cause` is the text of what a client reported.
    pub fn message(&self, cause: &str) -> (message: String)
        ensures
            message@ == self.text(cause@),
    {
        match self {
            BindingError::Client(_) => String::from_str(cause),
            BindingError::Json(reason) => reason.clone(),
            BindingError::NotConnected => String::from_str("client not connected"),
        }
    }
}

/// What came of waiting for a message from the daemon.
#[derive(Debug)]
pub enum Received {
    Message(MessageToClient),
    /// Messages were lost because the subscriber was too slow.
    Lagged,
    Closed,
}

/// The message that was waited for. One who lags behind gets none, like one whose
/// connection was closed.
pub fn next_message(received: Received) -> (message: Option<MessageToClient>)
    ensures
        message == (match received {
            Received::Message(message) => Some(message),
            _ => None,
        }),
{
    match received {
        Received::Message(message) => Some(message),
        _ => None,
    }
}

/// What a listener met.
#[derive(Debug, Clone, Copy, PartialEq, Eq, Structural)]
pub enum ListenerEvent {
    Cancelled,
    /// A message came that could not be put into the form the callback takes.
    Unserializable,
    /// A message came; whether the callback took it.
    Message { taken: bool },
    Lagged,
    Closed,
}

/// What a listener does next.
#[derive(Debug, Clone, Copy, PartialEq, Eq, Structural)]
pub enum ListenerStep {
    Continue,
    /// The callback is told of the error, and the listener ends.
    ReportAndStop,
    Stop,
}

/// What a listener does after an event.
pub open spec fn listening(event: ListenerEvent) -> ListenerStep {
    match event {
        ListenerEvent::Message { taken: true } | ListenerEvent::Lagged => ListenerStep::Continue,
        ListenerEvent::Unserializable => ListenerStep::ReportAndStop,
        _ => ListenerStep::Stop,
    }
}

/// A listener goes on as long as its messages are taken. To lag behind does not end it.
pub fn listener_step(event: ListenerEvent) -> (step: ListenerStep)
    ensures
        step == listening(event),
        step == ListenerStep::Continue <==> event == (ListenerEvent::Message { taken: true })
            || event == ListenerEvent::Lagged,
        step == ListenerStep::ReportAndStop <==> event == ListenerEvent::Unserializable,
{
    match event {
        ListenerEvent::Message { taken: true } | ListenerEvent::Lagged => ListenerStep::Continue,
        ListenerEvent::Unserializable => ListenerStep::ReportAndStop,
        _ => ListenerStep::Stop,
    }
}

/// The listeners of a client, by the numbers of the tasks that they run in.
#[derive(Debug)]
pub struct Listeners {
    tasks: Vec<u64>,
}

impl View for Listeners {
    type V = Seq<u64>;

    closed spec fn view(&self) -> Seq<u64> {
        self.tasks@
    }
}

impl Listeners {
    pub fn new() -> (listeners: Self)
        ensures
            listeners@ == Seq::<u64>::empty(),
    {
        Listeners { tasks: Vec::new() }
    }

    /// A listener was started.
    pub fn started(&mut self, task: u64)
        ensures
            final(self)@ == old(self)@.push(task),
    {
        self.tasks.push(task);
    }

    /// Lets go of all listeners; those that are to be stopped come out, in the order in
    /// which they were started.
    pub fn stop_all_listeners(&mut self) -> (tasks: Vec<u64>)
        ensures
            final(self)@ == Seq::<u64>::empty(),
            tasks@ == old(self)@,
    {
        let mut tasks: Vec<u64> = Vec::new();
        tasks.append(&mut self.tasks);
        assert(tasks@ =~= old(self)@);
        tasks
    }
}

/// The message for what was handed in, under a fresh identifier.
pub fn send_json(data: Result<MessageToServerData, String>) -> (message: Result<
    MessageToServer,
    BindingError,
>)
    ensures
        match (data, message) {
            (Ok(data), Ok(message)) => message.data == data && ids::is_random_uuid(message.id),
            (Err(reason), Err(BindingError::Json(text))) => text == reason,
            _ => false,
        },
{
    match data {
        Ok(data) => Ok(prepare(data)),
        Err(reason) => Err(BindingError::Json(reason)),
    }
}

/// What sending reports: the identifier as text, or that the connection is gone.
pub fn sent_text(message: &MessageToServer, accepted: bool) -> (result: Result<
    String,
    BindingError,
>)
    ensures
        match result {
            Ok(text) => accepted && text@ == ids::uuid_text(message.id),
            Err(error) => !accepted && error == BindingError::Client(
                ClientError::ConnectionClosed,
            ),
        },
{
    match sent(message, accepted) {
        Ok(id) => Ok(id_text(id)),
        Err(error) => Err(BindingError::Client(error)),
    }
}

/// Whether tracing is set up: only where it was asked for.
pub fn traces(enable_tracing: Option<bool>) -> (wanted: bool)
    ensures
        wanted == (enable_tracing == Some(true)),
{
    match enable_tracing {
        Some(enabled) => enabled,
        None => false,
    }
}

/// A listener outlives what it was too slow for and ends with its callback, its connection
/// or on demand. Only a message that it cannot hand on is reported to it.
pub proof fn listener_ends_with_its_callback(taken: bool)
    ensures
        listening(ListenerEvent::Lagged) == ListenerStep::Continue,
        taken ==> listening(ListenerEvent::Message { taken }) == ListenerStep::Continue,
        !taken ==> listening(ListenerEvent::Message { taken }) == ListenerStep::Stop,
        listening(ListenerEvent::Closed) == ListenerStep::Stop,
        listening(ListenerEvent::Cancelled) == ListenerStep::Stop,
        listening(ListenerEvent::Unserializable) == ListenerStep::ReportAndStop,
{
}

} // verus!
