//! The compositor's globals: which of them are bound, what is asked of them and when
//! the screen is captured.

use vstd::prelude::*;

use crate::text::same;
use crate::wayland::screencopy::{BufferObject, DmabufRequest};

pub mod idle;
pub mod once;
pub mod screencopy;

verus! {

#[derive(Debug, Clone, Copy, PartialEq, Eq, Structural)]
pub enum Command {
    ComputeDone,
}

/// How long the seat must be still before it counts as idle.
pub const IDLE_NOTIFY_TIMEOUT_MS: u32 = 300_000;

/// The identifier of a protocol object.
pub type ObjectId = u32;

/// A global of the registry and the object it is bound to.
#[derive(Debug, Clone, Copy, PartialEq, Eq, Structural)]
pub struct BoundGlobal<T> {
    pub name: u32,
    pub proxy: T,
}

impl<T> BoundGlobal<T> {
    pub fn new(name: u32, proxy: T) -> (global: Self)
        ensures
            global == (BoundGlobal { name, proxy }),
    {
        BoundGlobal { name, proxy }
    }

    pub fn matches(&self, name: u32) -> (matches: bool)
        ensures
            matches == (self.name == name),
    {
        self.name == name
    }

    pub fn proxy(&self) -> (proxy: &T)
        ensures
            *proxy == self.proxy,
    {
        &self.proxy
    }
}

/// The globals that are used.
#[derive(Debug, Clone, Copy, PartialEq, Eq, Structural)]
pub enum Interface {
    Seat,
    Output,
    Dmabuf,
    Screencopy,
    IdleNotifier,
}

impl Interface {
    pub open spec fn named(name: Seq<char>) -> Option<Interface> {
        if name == "wl_seat"@ {
            Some(Interface::Seat)
        } else if name == "wl_output"@ {
            Some(Interface::Output)
        } else if name == "zwp_linux_dmabuf_v1"@ {
            Some(Interface::Dmabuf)
        } else if name == "zwlr_screencopy_manager_v1"@ {
            Some(Interface::Screencopy)
        } else if name == "ext_idle_notifier_v1"@ {
            Some(Interface::IdleNotifier)
        } else {
            None
        }
    }

    /// The interface with this name, if it is used.
    pub fn from_name(name: &str) -> (interface: Option<Interface>)
        ensures
            interface == Interface::named(name@),
    {
        if same(name, "wl_seat") {
            Some(Interface::Seat)
        } else if same(name, "wl_output") {
            Some(Interface::Output)
        } else if same(name, "zwp_linux_dmabuf_v1") {
            Some(Interface::Dmabuf)
        } else if same(name, "zwlr_screencopy_manager_v1") {
            Some(Interface::Screencopy)
        } else if same(name, "ext_idle_notifier_v1") {
            Some(Interface::IdleNotifier)
        } else {
            None
        }
    }
}

/// What is asked of the compositor.
#[derive(Debug, Clone, Copy, PartialEq, Eq, Structural)]
pub enum Request {
    Nothing,
    /// Capture the output.
    CaptureOutput { manager: ObjectId, output: ObjectId },
    /// Tell which device and formats to use.
    DefaultFeedback { dmabuf: ObjectId },
    /// Tell when the seat becomes idle.
    IdleNotification { timeout_ms: u32, seat: ObjectId },
    /// Copy the captured frame into the buffer.
    CopyWithDamage,
}

/// What the frame that is being captured reports.
#[derive(Debug, Clone, Copy, PartialEq, Eq, Structural)]
pub enum FrameEvent {
    Ready,
    BufferDone,
    LinuxDmabuf { format: u32, width: u32, height: u32 },
    /// Anything else is only of interest to a log.
    Other,
}

/// What is done about it.
#[derive(Debug, Clone, Copy, PartialEq, Eq, Structural)]
pub enum FrameAction {
    Nothing,
    /// Tell that a frame is ready.
    FrameReady,
    /// Copy the captured frame into the buffer.
    CopyWithDamage,
    /// Create a buffer object of this format and size.
    CreateBufferObject { format: u32, width: u32, height: u32 },
}

/// The bound globals and the state of the capture.
#[derive(Debug, Clone, Copy, PartialEq, Eq, Structural)]
pub struct Wayland {
    pub gbm_device: bool,
    pub seat: Option<BoundGlobal<ObjectId>>,
    pub output: Option<BoundGlobal<ObjectId>>,
    pub screencopy: Option<BoundGlobal<ObjectId>>,
    pub dmabuf: Option<BoundGlobal<ObjectId>>,
    pub idle: Option<BoundGlobal<ObjectId>>,
    /// Whether there is a buffer to copy into.
    pub buffer: bool,
    /// Whether a frame is being captured.
    pub frame: bool,
    pub buffer_created: bool,
    pub frame_ready_for_copy: bool,
}

/// Whether the global is bound under this name.
pub open spec fn is_named(global: Option<BoundGlobal<ObjectId>>, name: u32) -> bool {
    global matches Some(bound) && bound.name == name
}

fn bound_as(global: &Option<BoundGlobal<ObjectId>>, name: u32) -> (found: bool)
    ensures
        found == is_named(*global, name),
{
    match global {
        Some(bound) => bound.matches(name),
        None => false,
    }
}

impl Wayland {
    pub open spec fn global(self, interface: Interface) -> Option<BoundGlobal<ObjectId>> {
        match interface {
            Interface::Seat => self.seat,
            Interface::Output => self.output,
            Interface::Dmabuf => self.dmabuf,
            Interface::Screencopy => self.screencopy,
            Interface::IdleNotifier => self.idle,
        }
    }

    /// Whether a global that is announced is bound, and to which interface.
    pub open spec fn wanted(self, interface: Seq<char>, alive: bool) -> Option<Interface> {
        match Interface::named(interface) {
            Some(used) => if self.global(used) is Some && alive {
                None
            } else {
                Some(used)
            },
            None => None,
        }
    }

    /// The request that captures the output, if everything that it takes is bound.
    pub open spec fn capture(self) -> Request {
        match (self.screencopy, self.output) {
            (Some(manager), Some(output)) => Request::CaptureOutput {
                manager: manager.proxy,
                output: output.proxy,
            },
            _ => Request::Nothing,
        }
    }

    /// The state in which a capture has been asked for, if it could be.
    pub open spec fn capturing(self) -> Wayland {
        Wayland { frame: self.frame || self.capture() != Request::Nothing, ..self }
    }

    /// Whether the captured frame can be copied.
    pub open spec fn can_copy(self) -> bool {
        self.frame && self.buffer
    }

    /// The state with a buffer to copy into, whether the buffer was stored and whether
    /// the captured frame is to be copied into it.
    pub open spec fn with_buffer(self) -> (Wayland, (bool, bool)) {
        if self.buffer {
            (self, (false, false))
        } else {
            (Wayland { buffer: true, buffer_created: true, ..self }, (true, self.frame))
        }
    }

    /// The state after the frame that is being captured reported something, and what is
    /// done about it.
    pub open spec fn frame_reported(self, event: FrameEvent) -> (Wayland, FrameAction) {
        match event {
            FrameEvent::Ready => (Wayland { frame: false, ..self }, FrameAction::FrameReady),
            FrameEvent::BufferDone => (
                Wayland { frame_ready_for_copy: true, ..self },
                if self.can_copy() {
                    FrameAction::CopyWithDamage
                } else {
                    FrameAction::Nothing
                },
            ),
            FrameEvent::LinuxDmabuf { format, width, height } => (
                self,
                if !self.buffer && self.dmabuf is Some && self.gbm_device {
                    FrameAction::CreateBufferObject { format, width, height }
                } else {
                    FrameAction::Nothing
                },
            ),
            FrameEvent::Other => (self, FrameAction::Nothing),
        }
    }

    /// The state with a new global, and what follows from it.
    pub open spec fn with_global(
        self,
        interface: Interface,
        bound: BoundGlobal<ObjectId>,
    ) -> (Wayland, Request) {
        match interface {
            Interface::Seat => (Wayland { seat: Some(bound), ..self }, Request::Nothing),
            Interface::Output => {
                let with = Wayland { output: Some(bound), ..self };
                (with.capturing(), with.capture())
            },
            Interface::Dmabuf => (
                Wayland { dmabuf: Some(bound), ..self },
                Request::DefaultFeedback { dmabuf: bound.proxy },
            ),
            Interface::Screencopy => {
                let with = Wayland { screencopy: Some(bound), ..self };
                (with.capturing(), with.capture())
            },
            Interface::IdleNotifier => match self.seat {
                Some(seat) => (
                    Wayland { idle: Some(bound), ..self },
                    Request::IdleNotification {
                        timeout_ms: IDLE_NOTIFY_TIMEOUT_MS,
                        seat: seat.proxy,
                    },
                ),
                None => (self, Request::Nothing),
            },
        }
    }

    /// The state without the globals of this name, and without what hangs on them: an
    /// output takes its capture and buffer along, the capture's manager the capture,
    /// the buffers' global the buffer and the device, and a seat its idle notifier.
    pub open spec fn without_global(self, name: u32) -> Wayland {
        let output = is_named(self.output, name);
        let screencopy = is_named(self.screencopy, name);
        let dmabuf = is_named(self.dmabuf, name);
        let seat = is_named(self.seat, name);
        let idle = is_named(self.idle, name);
        Wayland {
            output: if output {
                None
            } else {
                self.output
            },
            screencopy: if screencopy {
                None
            } else {
                self.screencopy
            },
            dmabuf: if dmabuf {
                None
            } else {
                self.dmabuf
            },
            seat: if seat {
                None
            } else {
                self.seat
            },
            idle: if seat || idle {
                None
            } else {
                self.idle
            },
            gbm_device: self.gbm_device && !dmabuf,
            buffer: self.buffer && !output && !dmabuf,
            frame: self.frame && !output && !screencopy && !dmabuf,
            buffer_created: self.buffer_created && !output && !dmabuf,
            frame_ready_for_copy: self.frame_ready_for_copy && !output && !screencopy && !dmabuf,
        }
    }

    pub fn new() -> (wayland: Self)
        ensures
            wayland == (Wayland {
                gbm_device: false,
                seat: None,
                output: None,
                screencopy: None,
                dmabuf: None,
                idle: None,
                buffer: false,
                frame: false,
                buffer_created: false,
                frame_ready_for_copy: false,
            }),
    {
        Wayland {
            gbm_device: false,
            seat: None,
            output: None,
            screencopy: None,
            dmabuf: None,
            idle: None,
            buffer: false,
            frame: false,
            buffer_created: false,
            frame_ready_for_copy: false,
        }
    }

    /// A global is announced: whether to bind it. `alive` says whether the object that
    /// its interface is bound to, if it is, is still alive; such a global is a
    /// duplicate.
    pub fn wants_global(&self, interface: &str, alive: bool) -> (wanted: Option<Interface>)
        ensures
            wanted == self.wanted(interface@, alive),
    {
        match Interface::from_name(interface) {
            Some(used) => {
                let bound = match used {
                    Interface::Seat => self.seat.is_some(),
                    Interface::Output => self.output.is_some(),
                    Interface::Dmabuf => self.dmabuf.is_some(),
                    Interface::Screencopy => self.screencopy.is_some(),
                    Interface::IdleNotifier => self.idle.is_some(),
                };
                if bound && alive {
                    None
                } else {
                    Some(used)
                }
            },
            None => None,
        }
    }

    /// A global was bound: what to ask of it.
    pub fn global_bound(&mut self, interface: Interface, name: u32, proxy: ObjectId) -> (request:
        Request)
        ensures
            (*final(self), request) == old(self).with_global(
                interface,
                BoundGlobal { name, proxy },
            ),
    {
        let bound = BoundGlobal::new(name, proxy);
        match interface {
            Interface::Seat => {
                self.seat = Some(bound);
                Request::Nothing
            },
            Interface::Output => {
                self.output = Some(bound);
                self.request_screencopy_frame()
            },
            Interface::Dmabuf => {
                self.dmabuf = Some(bound);
                Request::DefaultFeedback { dmabuf: proxy }
            },
            Interface::Screencopy => {
                self.screencopy = Some(bound);
                self.request_screencopy_frame()
            },
            Interface::IdleNotifier => match &self.seat {
                Some(seat) => {
                    let seat: ObjectId = *seat.proxy();
                    self.idle = Some(bound);
                    Request::IdleNotification { timeout_ms: IDLE_NOTIFY_TIMEOUT_MS, seat }
                },
                None => Request::Nothing,
            },
        }
    }

    pub fn handle_global_remove(&mut self, name: u32)
        ensures
            *final(self) == old(self).without_global(name),
    {
        if bound_as(&self.output, name) {
            self.output = None;
            self.frame = false;
            self.frame_ready_for_copy = false;
            self.buffer_created = false;
            self.buffer = false;
        }
        if bound_as(&self.screencopy, name) {
            self.screencopy = None;
            self.frame = false;
            self.frame_ready_for_copy = false;
        }
        if bound_as(&self.dmabuf, name) {
            self.dmabuf = None;
            self.buffer = false;
            self.gbm_device = false;
            self.frame = false;
            self.buffer_created = false;
            self.frame_ready_for_copy = false;
        }
        if bound_as(&self.seat, name) {
            self.seat = None;
            self.idle = None;
        }
        if bound_as(&self.idle, name) {
            self.idle = None;
        }
    }

    pub fn handle_command(&mut self, command: Command) -> (request: Request)
        ensures
            command == Command::ComputeDone ==> request == old(self).capture() && *final(self)
                == old(self).capturing(),
    {
        match command {
            Command::ComputeDone => self.request_screencopy_frame(),
        }
    }

    pub fn request_screencopy_frame(&mut self) -> (request: Request)
        ensures
            request == old(self).capture(),
            *final(self) == old(self).capturing(),
    {
        match (&self.screencopy, &self.output) {
            (Some(manager), Some(output)) => {
                let manager: ObjectId = *manager.proxy();
                let output: ObjectId = *output.proxy();
                self.frame = true;
                Request::CaptureOutput { manager, output }
            },
            _ => Request::Nothing,
        }
    }

    fn screencopy_frame(&self) -> (copy: bool)
        ensures
            copy == self.can_copy(),
    {
        self.frame && self.buffer
    }

    /// The device for buffer objects was opened; the first one stays.
    pub fn device_opened(&mut self) -> (stored: bool)
        ensures
            stored == !old(self).gbm_device,
            *final(self) == (Wayland { gbm_device: true, ..*old(self) }),
    {
        let stored = !self.gbm_device;
        self.gbm_device = true;
        stored
    }

    /// The buffer was created; the first one stays. Whether it was stored, and whether
    /// the captured frame is to be copied into it.
    pub fn buffer_made(&mut self) -> (outcome: (bool, bool))
        ensures
            (*final(self), outcome) == old(self).with_buffer(),
    {
        if self.buffer {
            return (false, false);
        }
        self.buffer = true;
        self.buffer_created = true;
        (true, self.screencopy_frame())
    }

    /// Takes in what the frame that is being captured reports.
    pub fn handle_frame_event(&mut self, event: FrameEvent) -> (action: FrameAction)
        ensures
            (*final(self), action) == old(self).frame_reported(event),
    {
        match event {
            FrameEvent::Ready => {
                self.frame = false;
                FrameAction::FrameReady
            },
            FrameEvent::BufferDone => {
                self.frame_ready_for_copy = true;
                if self.screencopy_frame() {
                    FrameAction::CopyWithDamage
                } else {
                    FrameAction::Nothing
                }
            },
            FrameEvent::LinuxDmabuf { format, width, height } => {
                if !self.buffer && self.dmabuf.is_some() && self.gbm_device {
                    FrameAction::CreateBufferObject { format, width, height }
                } else {
                    FrameAction::Nothing
                }
            },
            FrameEvent::Other => FrameAction::Nothing,
        }
    }

    /// The buffer object was made: what to tell and what to ask for, unless it has no
    /// planes.
    pub fn request_create_dmabuf_buffer(
        &self,
        format: u32,
        width: u32,
        height: u32,
        object: &BufferObject,
    ) -> (request: Option<DmabufRequest>)
        requires
            object.wf(),
        ensures
            object.plane_count == 0 ==> request is None,
            object.plane_count > 0 ==> request is Some && request->Some_0.describes(
                format,
                width,
                height,
                *object,
            ),
    {
        screencopy::describe_buffer(format, width, height, object)
    }
}

/// What hangs on a global goes with it: no capture without an output and a manager, no
/// idle notifier without a seat.
pub open spec fn consistent(wayland: Wayland) -> bool {
    &&& wayland.frame ==> wayland.output is Some && wayland.screencopy is Some
    &&& wayland.idle is Some ==> wayland.seat is Some
}

/// Binding and removing globals and starting captures keep the state consistent.
pub proof fn globals_stay_consistent(
    wayland: Wayland,
    interface: Interface,
    bound: BoundGlobal<ObjectId>,
    name: u32,
)
    requires
        consistent(wayland),
    ensures
        consistent(wayland.with_global(interface, bound).0),
        consistent(wayland.without_global(name)),
        consistent(wayland.capturing()),
{
}

/// Removing a global that is not bound changes nothing, and removing one twice is
/// removing it once.
pub proof fn removal_is_idempotent(wayland: Wayland, name: u32)
    ensures
        wayland.without_global(name).without_global(name) == wayland.without_global(name),
        !is_named(wayland.output, name) && !is_named(wayland.screencopy, name) && !is_named(
            wayland.dmabuf,
            name,
        ) && !is_named(wayland.seat, name) && !is_named(wayland.idle, name)
            ==> wayland.without_global(name) == wayland,
{
}

/// The order in which the output and the capture's manager are announced does not
/// matter: the second of them starts the capture.
pub proof fn capture_starts_with_the_second_global(
    wayland: Wayland,
    output: BoundGlobal<ObjectId>,
    manager: BoundGlobal<ObjectId>,
)
    requires
        wayland.output is None,
        wayland.screencopy is None,
    ensures
        wayland.with_global(Interface::Output, output).1 == Request::Nothing,
        wayland.with_global(Interface::Screencopy, manager).1 == Request::Nothing,
        wayland.with_global(Interface::Output, output).0.with_global(Interface::Screencopy, manager)
            == wayland.with_global(Interface::Screencopy, manager).0.with_global(
            Interface::Output,
            output,
        ),
        wayland.with_global(Interface::Output, output).0.with_global(
            Interface::Screencopy,
            manager,
        ).1 == (Request::CaptureOutput { manager: manager.proxy, output: output.proxy }),
{
}

/// A captured frame is copied once its buffer is there, whichever of the two comes first:
/// the report that the frame is complete or the buffer. Without a frame nothing is copied.
pub proof fn frame_is_copied_in_either_order(wayland: Wayland)
    requires
        !wayland.buffer,
    ensures
        wayland.frame_reported(FrameEvent::BufferDone).1 == FrameAction::Nothing,
        wayland.frame_reported(FrameEvent::BufferDone).0.with_buffer().1 == (true, wayland.frame),
        wayland.with_buffer().1 == (true, wayland.frame),
        wayland.with_buffer().0.frame_reported(FrameEvent::BufferDone).1 == (if wayland.frame {
            FrameAction::CopyWithDamage
        } else {
            FrameAction::Nothing
        }),
        wayland.frame_reported(FrameEvent::BufferDone).0.with_buffer().0
            == wayland.with_buffer().0.frame_reported(FrameEvent::BufferDone).0,
{
}

/// A buffer is made just as the frame asks for it, once there are a device and the
/// buffers' global, and only until there is one; a second one is not taken.
pub proof fn buffer_is_made_once(wayland: Wayland, format: u32, width: u32, height: u32)
    ensures
        ({
            let event = FrameEvent::LinuxDmabuf { format, width, height };
            let filled = wayland.with_buffer().0;
            &&& wayland.frame_reported(event).0 == wayland
            &&& !wayland.buffer && wayland.gbm_device && wayland.dmabuf is Some
                ==> wayland.frame_reported(event).1 == (FrameAction::CreateBufferObject {
                format,
                width,
                height,
            })
            &&& !wayland.gbm_device || wayland.dmabuf is None ==> wayland.frame_reported(event).1
                == FrameAction::Nothing
            &&& filled.buffer
            &&& filled.frame_reported(event).1 == FrameAction::Nothing
            &&& filled.with_buffer() == (filled, (false, false))
            &&& filled.frame == wayland.frame && filled.output == wayland.output
                && filled.screencopy == wayland.screencopy && filled.seat == wayland.seat
                && filled.idle == wayland.idle && filled.dmabuf == wayland.dmabuf
                && filled.gbm_device == wayland.gbm_device
        }),
{
}

/// A frame that is ready is told of whatever the state, and is over: the next one is
/// captured from the same output by the same manager when it is asked for.
pub proof fn ready_frame_makes_way_for_next(
    wayland: Wayland,
    manager: BoundGlobal<ObjectId>,
    output: BoundGlobal<ObjectId>,
)
    requires
        wayland.screencopy == Some(manager),
        wayland.output == Some(output),
    ensures
        ({
            let (over, action) = wayland.frame_reported(FrameEvent::Ready);
            &&& action == FrameAction::FrameReady
            &&& !over.frame
            &&& over.frame_reported(FrameEvent::BufferDone).1 == FrameAction::Nothing
            &&& over.buffer == wayland.buffer
            &&& over.capture() == (Request::CaptureOutput {
                manager: manager.proxy,
                output: output.proxy,
            })
            &&& over.capturing() == (Wayland { frame: true, ..wayland })
        }),
{
}

/// What else a frame reports has no effect.
pub proof fn other_reports_have_no_effect(wayland: Wayland)
    ensures
        wayland.frame_reported(FrameEvent::Other) == (wayland, FrameAction::Nothing),
{
}

/// Without an output or without the capture's manager the screen is not captured.
pub proof fn capture_needs_output_and_manager(wayland: Wayland)
    requires
        wayland.output is None || wayland.screencopy is None,
    ensures
        wayland.capture() == Request::Nothing,
        wayland.capturing() == wayland,
{
}

/// A global that is bound is found under its interface with its name and object, and the
/// other interfaces keep theirs. The one exception is an idle notifier without a seat,
/// which changes nothing.
pub proof fn bound_global_is_found(
    wayland: Wayland,
    interface: Interface,
    bound: BoundGlobal<ObjectId>,
    other: Interface,
)
    ensures
        interface == Interface::IdleNotifier && wayland.seat is None ==> wayland.with_global(
            interface,
            bound,
        ) == (wayland, Request::Nothing),
        interface != Interface::IdleNotifier || wayland.seat is Some ==> wayland.with_global(
            interface,
            bound,
        ).0.global(interface) == Some(bound),
        other != interface ==> wayland.with_global(interface, bound).0.global(other)
            == wayland.global(other),
        wayland.with_global(interface, bound).0.buffer == wayland.buffer,
        wayland.with_global(interface, bound).0.gbm_device == wayland.gbm_device,
{
}

/// A seat that is watched counts as idle after five minutes, and the buffers' global is
/// asked which device to use.
pub proof fn bound_global_is_put_to_use(
    wayland: Wayland,
    seat: BoundGlobal<ObjectId>,
    bound: BoundGlobal<ObjectId>,
)
    requires
        wayland.seat == Some(seat),
    ensures
        wayland.with_global(Interface::IdleNotifier, bound).1 == (Request::IdleNotification {
            timeout_ms: 300_000,
            seat: seat.proxy,
        }),
        wayland.with_global(Interface::Dmabuf, bound).1 == (Request::DefaultFeedback {
            dmabuf: bound.proxy,
        }),
        wayland.with_global(Interface::Seat, bound).1 == Request::Nothing,
{
}

/// No global is left under a name that was removed. What does not hang on it stays: the
/// seat and its notifier without the screen, and the other way round.
pub proof fn removed_global_is_gone(wayland: Wayland, name: u32, interface: Interface)
    ensures
        !is_named(wayland.without_global(name).global(interface), name),
        !is_named(wayland.global(interface), name) && (interface != Interface::IdleNotifier
            || !is_named(wayland.seat, name)) ==> wayland.without_global(name).global(interface)
            == wayland.global(interface),
        is_named(wayland.seat, name) ==> wayland.without_global(name).idle is None,
        is_named(wayland.output, name) ==> !wayland.without_global(name).can_copy()
            && wayland.without_global(name).capture() == Request::Nothing
            && !wayland.without_global(name).buffer,
        is_named(wayland.screencopy, name) ==> !wayland.without_global(name).frame
            && wayland.without_global(name).capture() == Request::Nothing,
        is_named(wayland.dmabuf, name) ==> !wayland.without_global(name).buffer
            && !wayland.without_global(name).gbm_device && !wayland.without_global(name).frame,
        !is_named(wayland.output, name) && !is_named(wayland.dmabuf, name)
            ==> wayland.without_global(name).buffer == wayland.buffer,
        !is_named(wayland.output, name) && !is_named(wayland.dmabuf, name) && !is_named(
            wayland.screencopy,
            name,
        ) ==> wayland.without_global(name).frame == wayland.frame,
        !is_named(wayland.dmabuf, name) ==> wayland.without_global(name).gbm_device
            == wayland.gbm_device,
{
}

/// Each interface that is used has one name, and no other name stands for it.
pub proof fn interfaces_have_their_names(name: Seq<char>)
    ensures
        Interface::named(name) == Some(Interface::Seat) <==> name == "wl_seat"@,
        Interface::named(name) == Some(Interface::Output) <==> name == "wl_output"@,
        Interface::named(name) == Some(Interface::Dmabuf) <==> name == "zwp_linux_dmabuf_v1"@,
        Interface::named(name) == Some(Interface::Screencopy) <==> name
            == "zwlr_screencopy_manager_v1"@,
        Interface::named(name) == Some(Interface::IdleNotifier) <==> name
            == "ext_idle_notifier_v1"@,
{
    reveal_strlit("wl_seat");
    reveal_strlit("wl_output");
    reveal_strlit("zwp_linux_dmabuf_v1");
    reveal_strlit("zwlr_screencopy_manager_v1");
    reveal_strlit("ext_idle_notifier_v1");
    assert("wl_seat"@.len() == 7 && "wl_output"@.len() == 9);
    assert("zwp_linux_dmabuf_v1"@.len() == 19 && "zwlr_screencopy_manager_v1"@.len() == 26);
    assert("ext_idle_notifier_v1"@.len() == 20);
}

/// A global is bound if it is used and either the first of its kind or takes the place of a
/// dead one: whether it is bound already only matters as long as its object is alive. Once
/// bound, a second one is not wanted.
pub proof fn globals_are_bound_once(
    wayland: Wayland,
    name: Seq<char>,
    interface: Interface,
    bound: BoundGlobal<ObjectId>,
    alive: bool,
)
    requires
        Interface::named(name) == Some(interface),
    ensures
        wayland.wanted(name, false) == Some(interface),
        wayland.global(interface) is None ==> wayland.wanted(name, alive) == Some(interface),
        wayland.global(interface) is Some ==> wayland.wanted(name, true) is None,
        interface != Interface::IdleNotifier ==> wayland.with_global(interface, bound).0.wanted(
            name,
            true,
        ) is None,
        is_named(wayland.global(interface), bound.name) ==> wayland.without_global(
            bound.name,
        ).wanted(name, alive) == Some(interface),
{
}

} // verus!
