//! A session that binds every global once and keeps it to the end.

use vstd::prelude::*;

use super::screencopy::{describe_buffer, BufferObject, DmabufPlane, DmabufRequest};
use super::{Command, FrameAction, FrameEvent, Interface, ObjectId, Request};

verus! {

/// The session. What is bound once is never replaced.
#[derive(Debug, Clone, Copy, PartialEq, Eq, Structural)]
pub struct OnceSession {
    pub seat: Option<ObjectId>,
    pub output: Option<ObjectId>,
    pub screencopy: Option<ObjectId>,
    pub dmabuf: Option<ObjectId>,
    /// Whether a device to make buffers on was opened.
    pub device: bool,
    /// Whether there is a buffer to copy the screen into.
    pub buffer: bool,
    /// Whether a capture was asked for.
    pub frame: bool,
}

/// What is kept where something was bound or not: the first.
pub open spec fn first(kept: Option<ObjectId>, object: ObjectId) -> Option<ObjectId> {
    match kept {
        Some(kept) => Some(kept),
        None => Some(object),
    }
}

fn keep_first(kept: Option<ObjectId>, object: ObjectId) -> (result: Option<ObjectId>)
    ensures
        result == first(kept, object),
{
    match kept {
        Some(kept) => Some(kept),
        None => Some(object),
    }
}

impl OnceSession {
    /// What is bound to an interface.
    pub open spec fn bound_to(self, interface: Interface) -> Option<ObjectId> {
        match interface {
            Interface::Seat => self.seat,
            Interface::Output => self.output,
            Interface::Dmabuf => self.dmabuf,
            Interface::Screencopy => self.screencopy,
            Interface::IdleNotifier => None,
        }
    }

    /// Whether a global that is announced is bound, and to which interface.
    pub open spec fn wanted(self, interface: Seq<char>, alive: bool) -> Option<Interface> {
        match Interface::named(interface) {
            Some(Interface::IdleNotifier) => None,
            Some(interface) => if self.bound_to(interface) is Some && alive {
                None
            } else {
                Some(interface)
            },
            None => None,
        }
    }

    /// The session after an object was bound to an interface.
    pub open spec fn with_bound(self, interface: Interface, object: ObjectId) -> OnceSession {
        match interface {
            Interface::Seat => OnceSession { seat: first(self.seat, object), ..self },
            Interface::Output => OnceSession {
                output: first(self.output, object),
                frame: self.frame || self.screencopy is Some,
                ..self
            },
            Interface::Dmabuf => OnceSession { dmabuf: first(self.dmabuf, object), ..self },
            Interface::Screencopy => OnceSession {
                screencopy: first(self.screencopy, object),
                frame: self.frame || self.output is Some,
                ..self
            },
            Interface::IdleNotifier => self,
        }
    }

    /// What is asked for once an object was bound: the screen is captured as soon as
    /// there are an output and a manager.
    pub open spec fn asked(self, interface: Interface, object: ObjectId) -> Request {
        match interface {
            Interface::Output => match self.screencopy {
                Some(manager) => Request::CaptureOutput { manager, output: object },
                None => Request::Nothing,
            },
            Interface::Dmabuf => Request::DefaultFeedback { dmabuf: object },
            Interface::Screencopy => match self.output {
                Some(output) => Request::CaptureOutput { manager: object, output },
                None => Request::Nothing,
            },
            _ => Request::Nothing,
        }
    }

    /// Whether the captured frame can be copied into the buffer.
    pub open spec fn can_copy(self) -> bool {
        self.frame && self.buffer
    }

    /// The session after a command, and what is asked for.
    pub open spec fn commanded(self, command: Command) -> (OnceSession, Request) {
        match (self.screencopy, self.output) {
            (Some(manager), Some(output)) => (
                OnceSession { frame: true, ..self },
                Request::CaptureOutput { manager, output },
            ),
            _ => (self, Request::Nothing),
        }
    }

    /// The session with a buffer, and whether the captured frame is copied into it.
    pub open spec fn with_buffer(self) -> (OnceSession, bool) {
        (OnceSession { buffer: true, ..self }, !self.buffer && self.frame)
    }

    /// What is done about a report of the captured frame.
    pub open spec fn answer_to(self, event: FrameEvent) -> FrameAction {
        match event {
            FrameEvent::Ready => FrameAction::FrameReady,
            FrameEvent::BufferDone => if self.can_copy() {
                FrameAction::CopyWithDamage
            } else {
                FrameAction::Nothing
            },
            FrameEvent::LinuxDmabuf { format, width, height } => if !self.buffer
                && self.dmabuf is Some && self.device {
                FrameAction::CreateBufferObject { format, width, height }
            } else {
                FrameAction::Nothing
            },
            FrameEvent::Other => FrameAction::Nothing,
        }
    }

    pub fn new() -> (session: Self)
        ensures
            session == (OnceSession {
                seat: None,
                output: None,
                screencopy: None,
                dmabuf: None,
                device: false,
                buffer: false,
                frame: false,
            }),
    {
        OnceSession {
            seat: None,
            output: None,
            screencopy: None,
            dmabuf: None,
            device: false,
            buffer: false,
            frame: false,
        }
    }

    /// Whether a global is to be bound: it is one of those that are used, and what was
    /// bound to its interface before, if anything, is not alive any more.
    pub fn wants_global(&self, interface: &str, alive: bool) -> (wanted: Option<Interface>)
        ensures
            wanted == self.wanted(interface@, alive),
    {
        match Interface::from_name(interface) {
            None | Some(Interface::IdleNotifier) => None,
            Some(interface) => {
                let bound = match interface {
                    Interface::Seat => self.seat.is_some(),
                    Interface::Output => self.output.is_some(),
                    Interface::Dmabuf => self.dmabuf.is_some(),
                    _ => self.screencopy.is_some(),
                };
                if bound && alive {
                    None
                } else {
                    Some(interface)
                }
            },
        }
    }

    /// An object was bound.
    pub fn global_bound(&mut self, interface: Interface, object: ObjectId) -> (request: Request)
        ensures
            *final(self) == old(self).with_bound(interface, object),
            request == old(self).asked(interface, object),
    {
        match interface {
            Interface::Seat => {
                self.seat = keep_first(self.seat, object);
                Request::Nothing
            },
            Interface::Output => {
                self.output = keep_first(self.output, object);
                match self.screencopy {
                    Some(manager) => {
                        self.frame = true;
                        Request::CaptureOutput { manager, output: object }
                    },
                    None => Request::Nothing,
                }
            },
            Interface::Dmabuf => {
                self.dmabuf = keep_first(self.dmabuf, object);
                Request::DefaultFeedback { dmabuf: object }
            },
            Interface::Screencopy => {
                self.screencopy = keep_first(self.screencopy, object);
                match self.output {
                    Some(output) => {
                        self.frame = true;
                        Request::CaptureOutput { manager: object, output }
                    },
                    None => Request::Nothing,
                }
            },
            Interface::IdleNotifier => Request::Nothing,
        }
    }

    /// A device was opened, or could not be.
    pub fn device_opened(&mut self, opened: bool)
        ensures
            *final(self) == (OnceSession { device: old(self).device || opened, ..*old(self) }),
    {
        if opened {
            self.device = true;
        }
    }

    /// A command: after a run on a frame the next one is captured.
    pub fn handle_command(&mut self, command: Command) -> (request: Request)
        ensures
            (*final(self), request) == old(self).commanded(command),
    {
        match command {
            Command::ComputeDone => match (self.screencopy, self.output) {
                (Some(manager), Some(output)) => {
                    self.frame = true;
                    Request::CaptureOutput { manager, output }
                },
                _ => Request::Nothing,
            },
        }
    }

    /// The compositor made a buffer. The first one is kept and copied into; any other is
    /// of no use.
    pub fn buffer_created(&mut self) -> (copy: bool)
        ensures
            (*final(self), copy) == old(self).with_buffer(),
    {
        if self.buffer {
            return false;
        }
        self.buffer = true;
        self.frame
    }

    /// The captured frame reports something.
    pub fn handle_frame_event(&self, event: FrameEvent) -> (action: FrameAction)
        ensures
            action == self.answer_to(event),
    {
        match event {
            FrameEvent::Ready => FrameAction::FrameReady,
            FrameEvent::BufferDone => {
                if self.frame && self.buffer {
                    FrameAction::CopyWithDamage
                } else {
                    FrameAction::Nothing
                }
            },
            FrameEvent::LinuxDmabuf { format, width, height } => {
                if !self.buffer && self.dmabuf.is_some() && self.device {
                    FrameAction::CreateBufferObject { format, width, height }
                } else {
                    FrameAction::Nothing
                }
            },
            FrameEvent::Other => FrameAction::Nothing,
        }
    }
}

/// A buffer object with one plane that starts at its beginning.
pub open spec fn one_plane(stride: u32, modifier: u64, object: BufferObject) -> bool {
    &&& object.modifier == modifier
    &&& object.stride == stride
    &&& object.plane_count == 1
    &&& object.planes@ == seq![DmabufPlane { stride, offset: 0 }]
}

/// Describes a buffer object of one plane.
pub fn describe_plain_buffer(format: u32, width: u32, height: u32, stride: u32, modifier: u64) -> (
    request: Option<DmabufRequest>)
    ensures
        request is Some,
        exists|object: BufferObject|
            one_plane(stride, modifier, object) && #[trigger] request->Some_0.describes(
                format,
                width,
                height,
                object,
            ),
{
    let planes = vec![DmabufPlane { stride, offset: 0 }];
    let object = BufferObject { modifier, stride, plane_count: 1, planes };
    assert(object.planes@ =~= seq![DmabufPlane { stride, offset: 0 }]);
    assert(one_plane(stride, modifier, object));
    describe_buffer(format, width, height, &object)
}

/// Whatever is bound first is kept.
pub proof fn first_object_is_kept(
    session: OnceSession,
    interface: Interface,
    object: ObjectId,
    other: Interface,
)
    requires
        session.bound_to(other) is Some,
    ensures
        session.with_bound(interface, object).bound_to(other) == session.bound_to(other),
{
}

/// The order in which an output and a manager turn up does not matter: the second one
/// starts the capture of that output with that manager.
pub proof fn either_order_starts_capture(session: OnceSession, output: ObjectId, manager: ObjectId)
    requires
        session.output is None,
        session.screencopy is None,
    ensures
        session.with_bound(Interface::Output, output).asked(Interface::Screencopy, manager) == (
        Request::CaptureOutput { manager, output }),
        session.with_bound(Interface::Screencopy, manager).asked(Interface::Output, output) == (
        Request::CaptureOutput { manager, output }),
        session.with_bound(Interface::Output, output).with_bound(Interface::Screencopy, manager)
            == session.with_bound(Interface::Screencopy, manager).with_bound(
            Interface::Output,
            output,
        ),
{
}

/// The first buffer is copied into as soon as a frame is there, whether the buffer or the
/// report that the frame is complete comes first. No other buffer is copied into.
pub proof fn first_buffer_is_copied_into(session: OnceSession)
    ensures
        session.with_buffer().0.buffer,
        !session.buffer ==> session.with_buffer().1 == session.frame,
        !session.buffer ==> session.answer_to(FrameEvent::BufferDone) == FrameAction::Nothing,
        session.with_buffer().0.answer_to(FrameEvent::BufferDone) == (if session.frame {
            FrameAction::CopyWithDamage
        } else {
            FrameAction::Nothing
        }),
        session.with_buffer().0.with_buffer() == (session.with_buffer().0, false),
        session.with_buffer().0.frame == session.frame,
{
}

/// A buffer is made just as the frame asks for it, once there are a device and the
/// buffers' global, and only until there is one.
pub proof fn one_buffer_is_made(session: OnceSession, format: u32, width: u32, height: u32)
    ensures
        ({
            let event = FrameEvent::LinuxDmabuf { format, width, height };
            &&& session.with_buffer().0.answer_to(event) == FrameAction::Nothing
            &&& !session.device || session.dmabuf is None ==> session.answer_to(event)
                == FrameAction::Nothing
            &&& !session.buffer && session.device && session.dmabuf is Some ==> session.answer_to(
                event,
            ) == (FrameAction::CreateBufferObject { format, width, height })
        }),
        session.answer_to(FrameEvent::Ready) == FrameAction::FrameReady,
        session.answer_to(FrameEvent::Other) == FrameAction::Nothing,
{
}

/// The next frame is captured from the output that was bound first, by the manager that
/// was bound first; as long as one of them is missing, nothing is asked for.
pub proof fn next_frame_is_captured(session: OnceSession, command: Command)
    ensures
        session.screencopy is Some && session.output is Some ==> session.commanded(command) == (
            (OnceSession { frame: true, ..session }),
            (Request::CaptureOutput {
                manager: session.screencopy->Some_0,
                output: session.output->Some_0,
            }),
        ),
        session.screencopy is None || session.output is None ==> session.commanded(command) == (
            session,
            Request::Nothing,
        ),
{
}

/// A global is wanted until one of its kind is bound and alive. The seat's idleness is not
/// followed here.
pub proof fn first_global_of_a_kind_is_wanted(
    session: OnceSession,
    name: Seq<char>,
    interface: Interface,
    object: ObjectId,
    alive: bool,
)
    requires
        Interface::named(name) == Some(interface),
    ensures
        interface == Interface::IdleNotifier ==> session.wanted(name, alive) is None,
        interface != Interface::IdleNotifier ==> {
            &&& session.bound_to(interface) is None ==> session.wanted(name, alive) == Some(
                interface,
            )
            &&& session.with_bound(interface, object).wanted(name, true) is None
            &&& session.wanted(name, false) == Some(interface)
        },
{
}

} // verus!
