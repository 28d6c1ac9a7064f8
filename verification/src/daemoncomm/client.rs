//! The client's side of a connection.

use vstd::prelude::*;

use crate::daemoncomm::{MessageToServer, MessageToServerData};
use crate::ids;
use crate::ids::{new_id, MessageId};

verus! {

#[derive(Debug, Clone, Copy, PartialEq, Eq, Structural)]
pub enum ClientError {
    Io,
    ConnectionClosed,
    Cancelled,
}

/// What the task that reads from the server met.
#[derive(Debug, Clone, Copy, PartialEq, Eq, Structural)]
pub enum ReaderEvent {
    /// A message came; whether its receiver was still there to take it.
    Message { taken: bool },
    DecodeError,
    Closed,
    Cancelled,
}

/// What the task that writes to the server met.
#[derive(Debug, Clone, Copy, PartialEq, Eq, Structural)]
pub enum WriterEvent {
    /// A message was to be sent; whether that worked.
    Message { sent: bool },
    /// Nobody is left to hand in messages.
    SenderDropped,
    Cancelled,
}

/// Whether a task goes on or ends.
#[derive(Debug, Clone, Copy, PartialEq, Eq, Structural)]
pub enum Task {
    Continue,
    Stop,
}

/// Whether the reader goes on after an event.
pub open spec fn reading_goes_on(event: ReaderEvent) -> bool {
    event == ReaderEvent::Message { taken: true }
}

/// Whether the writer goes on after an event.
pub open spec fn writing_goes_on(event: WriterEvent) -> bool {
    event == WriterEvent::Message { sent: true }
}

/// The reader goes on exactly as long as its messages are taken.
pub fn reader_step(event: ReaderEvent) -> (task: Task)
    ensures
        (task == Task::Continue) == reading_goes_on(event),
        (task == Task::Continue) == (event == ReaderEvent::Message { taken: true }),
{
    match event {
        ReaderEvent::Message { taken: true } => Task::Continue,
        _ => Task::Stop,
    }
}

/// The writer goes on exactly as long as its messages are sent.
pub fn writer_step(event: WriterEvent) -> (task: Task)
    ensures
        (task == Task::Continue) == writing_goes_on(event),
        (task == Task::Continue) == (event == WriterEvent::Message { sent: true }),
{
    match event {
        WriterEvent::Message { sent: true } => Task::Continue,
        _ => Task::Stop,
    }
}

/// The message with this identifier and content.
pub fn message(id: MessageId, data: MessageToServerData) -> (message: MessageToServer)
    ensures
        message.id == id,
        message.data == data,
{
    MessageToServer { id, data }
}

/// The next message to the server, under a fresh random identifier.
pub fn prepare(data: MessageToServerData) -> (message: MessageToServer)
    ensures
        message.data == data,
        ids::is_random_uuid(message.id),
{
    self::message(new_id(), data)
}

/// What sending reports: the message's identifier, or that the connection's task
/// has ended.
pub fn sent(message: &MessageToServer, accepted: bool) -> (result: Result<MessageId, ClientError>)
    ensures
        accepted ==> result == Ok::<MessageId, ClientError>(message.id),
        !accepted ==> result == Err::<MessageId, ClientError>(ClientError::ConnectionClosed),
{
    if accepted {
        Ok(message.id)
    } else {
        Err(ClientError::ConnectionClosed)
    }
}

/// A message that was taken or sent ends nothing; whoever cannot hand a message on any
/// more, is cut off or is told to end does so.
pub proof fn connection_ends_for_a_reason(taken: bool, sent: bool)
    ensures
        reading_goes_on(ReaderEvent::Message { taken }) == taken,
        !reading_goes_on(ReaderEvent::DecodeError),
        !reading_goes_on(ReaderEvent::Closed),
        !reading_goes_on(ReaderEvent::Cancelled),
        writing_goes_on(WriterEvent::Message { sent }) == sent,
        !writing_goes_on(WriterEvent::SenderDropped),
        !writing_goes_on(WriterEvent::Cancelled),
{
}

} // verus!
