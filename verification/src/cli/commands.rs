//! The commands that the console offers.

use vstd::prelude::*;

verus! {

/// How many commands there are.
pub const COMMAND_COUNT: usize = 13;

#[derive(Debug, Clone, Copy, PartialEq, Eq, Structural)]
pub enum LedCommandKind {
    SetStaticColor,
    SetStripState,
    FadeIn,
    FadeOut,
    Rainbow,
    Breathing,
}

#[derive(Debug, Clone, Copy, PartialEq, Eq, Structural)]
pub enum KinectCommandKind {
    RequestStatus,
}

#[derive(Debug, Clone, Copy, PartialEq, Eq, Structural)]
pub enum CommandKind {
    GetManualMode,
    Manual(bool),
    GetIdleInhibit,
    IdleInhibit(bool),
    Led(LedCommandKind),
    Kinect(KinectCommandKind),
}

/// The fields for durations.
#[derive(Debug, Clone, Copy, PartialEq, Eq, Structural)]
pub enum DurationField {
    IdleInhibit,
    FadeOut,
}

/// A command on offer.
#[derive(Debug, Clone, Copy)]
pub struct CommandDescriptor {
    pub label: &'static str,
    pub description: &'static str,
    pub kind: CommandKind,
    pub supported: bool,
    pub duration: Option<DurationField>,
}

/// The model of [`CommandDescriptor`].
pub struct DescriptorModel {
    pub label: Seq<char>,
    pub description: Seq<char>,
    pub kind: CommandKind,
    pub supported: bool,
    pub duration: Option<DurationField>,
}

impl View for CommandDescriptor {
    type V = DescriptorModel;

    open spec fn view(&self) -> DescriptorModel {
        DescriptorModel {
            label: self.label@,
            description: self.description@,
            kind: self.kind,
            supported: self.supported,
            duration: self.duration,
        }
    }
}

impl DescriptorModel {
    /// Whether the command goes with a colour.
    pub open spec fn takes_color(self) -> bool {
        self.kind == CommandKind::Led(LedCommandKind::SetStaticColor) || self.kind
            == CommandKind::Led(LedCommandKind::Breathing)
    }
}

impl CommandDescriptor {
    /// Whether the command goes with a colour.
    pub fn needs_color(&self) -> (needs: bool)
        ensures
            needs == self@.takes_color(),
    {
        matches!(
            self.kind,
            CommandKind::Led(LedCommandKind::SetStaticColor)
            | CommandKind::Led(LedCommandKind::Breathing)
        )
    }

    /// The field for the command's duration, if it has one.
    pub fn duration_field(&self) -> (field: Option<DurationField>)
        ensures
            field == self@.duration,
    {
        self.duration
    }
}

/// The commands, in the order in which they are offered.
pub open spec fn command_at(index: int) -> DescriptorModel {
    if index == 0 {
        DescriptorModel {
            label: "Get manual mode"@,
            description: "Request the daemon's view of manual mode."@,
            kind: CommandKind::GetManualMode,
            supported: true,
            duration: None,
        }
    } else if index == 1 {
        DescriptorModel {
            label: "Enable manual mode"@,
            description: "Ask the daemon to cede LED control to this console."@,
            kind: CommandKind::Manual(true),
            supported: true,
            duration: None,
        }
    } else if index == 2 {
        DescriptorModel {
            label: "Disable manual mode"@,
            description: "Cede control back to the daemon."@,
            kind: CommandKind::Manual(false),
            supported: true,
            duration: None,
        }
    } else if index == 3 {
        DescriptorModel {
            label: "Get idle inhibit"@,
            description: "Request the daemon's view of idle inhibit state."@,
            kind: CommandKind::GetIdleInhibit,
            supported: true,
            duration: None,
        }
    } else if index == 4 {
        DescriptorModel {
            label: "Enable idle inhibit"@,
            description: "Prevent idle events from fading the LEDs."@,
            kind: CommandKind::IdleInhibit(true),
            supported: true,
            duration: Some(DurationField::IdleInhibit),
        }
    } else if index == 5 {
        DescriptorModel {
            label: "Disable idle inhibit"@,
            description: "Allow the daemon to fade out when idle again."@,
            kind: CommandKind::IdleInhibit(false),
            supported: true,
            duration: None,
        }
    } else if index == 6 {
        DescriptorModel {
            label: "Get Kinect status"@,
            description: "Query the daemon for Kinect availability and health."@,
            kind: CommandKind::Kinect(KinectCommandKind::RequestStatus),
            supported: true,
            duration: None,
        }
    } else if index == 7 {
        DescriptorModel {
            label: "Set static color"@,
            description: "Fill every LED with the specified #RRGGBB color."@,
            kind: CommandKind::Led(LedCommandKind::SetStaticColor),
            supported: true,
            duration: None,
        }
    } else if index == 8 {
        DescriptorModel {
            label: "Breathing effect"@,
            description: "Pulse the selected color at the configured brightness envelope."@,
            kind: CommandKind::Led(LedCommandKind::Breathing),
            supported: true,
            duration: None,
        }
    } else if index == 9 {
        DescriptorModel {
            label: "Fade out"@,
            description: "Quickly fade all LEDs to black."@,
            kind: CommandKind::Led(LedCommandKind::FadeOut),
            supported: true,
            duration: Some(DurationField::FadeOut),
        }
    } else if index == 10 {
        DescriptorModel {
            label: "Rainbow"@,
            description: "Start the rainbow animation shipped with the daemon."@,
            kind: CommandKind::Led(LedCommandKind::Rainbow),
            supported: true,
            duration: None,
        }
    } else if index == 11 {
        DescriptorModel {
            label: "Set strip state (full frame)"@,
            description: "Upload a custom LED frame. Not yet supported in this UI."@,
            kind: CommandKind::Led(LedCommandKind::SetStripState),
            supported: false,
            duration: None,
        }
    } else {
        DescriptorModel {
            label: "Fade in frame (full frame)"@,
            description: "Fade into a provided LED frame. Not yet supported in this UI."@,
            kind: CommandKind::Led(LedCommandKind::FadeIn),
            supported: false,
            duration: None,
        }
    }
}

/// The command at a place in the list.
pub fn command(index: usize) -> (descriptor: CommandDescriptor)
    requires
        index < COMMAND_COUNT,
    ensures
        descriptor@ == command_at(index as int),
{
    match index {
        0 => CommandDescriptor {
            label: "Get manual mode",
            description: "Request the daemon's view of manual mode.",
            kind: CommandKind::GetManualMode,
            supported: true,
            duration: None,
        },
        1 => CommandDescriptor {
            label: "Enable manual mode",
            description: "Ask the daemon to cede LED control to this console.",
            kind: CommandKind::Manual(true),
            supported: true,
            duration: None,
        },
        2 => CommandDescriptor {
            label: "Disable manual mode",
            description: "Cede control back to the daemon.",
            kind: CommandKind::Manual(false),
            supported: true,
            duration: None,
        },
        3 => CommandDescriptor {
            label: "Get idle inhibit",
            description: "Request the daemon's view of idle inhibit state.",
            kind: CommandKind::GetIdleInhibit,
            supported: true,
            duration: None,
        },
        4 => CommandDescriptor {
            label: "Enable idle inhibit",
            description: "Prevent idle events from fading the LEDs.",
            kind: CommandKind::IdleInhibit(true),
            supported: true,
            duration: Some(DurationField::IdleInhibit),
        },
        5 => CommandDescriptor {
            label: "Disable idle inhibit",
            description: "Allow the daemon to fade out when idle again.",
            kind: CommandKind::IdleInhibit(false),
            supported: true,
            duration: None,
        },
        6 => CommandDescriptor {
            label: "Get Kinect status",
            description: "Query the daemon for Kinect availability and health.",
            kind: CommandKind::Kinect(KinectCommandKind::RequestStatus),
            supported: true,
            duration: None,
        },
        7 => CommandDescriptor {
            label: "Set static color",
            description: "Fill every LED with the specified #RRGGBB color.",
            kind: CommandKind::Led(LedCommandKind::SetStaticColor),
            supported: true,
            duration: None,
        },
        8 => CommandDescriptor {
            label: "Breathing effect",
            description: "Pulse the selected color at the configured brightness envelope.",
            kind: CommandKind::Led(LedCommandKind::Breathing),
            supported: true,
            duration: None,
        },
        9 => CommandDescriptor {
            label: "Fade out",
            description: "Quickly fade all LEDs to black.",
            kind: CommandKind::Led(LedCommandKind::FadeOut),
            supported: true,
            duration: Some(DurationField::FadeOut),
        },
        10 => CommandDescriptor {
            label: "Rainbow",
            description: "Start the rainbow animation shipped with the daemon.",
            kind: CommandKind::Led(LedCommandKind::Rainbow),
            supported: true,
            duration: None,
        },
        11 => CommandDescriptor {
            label: "Set strip state (full frame)",
            description: "Upload a custom LED frame. Not yet supported in this UI.",
            kind: CommandKind::Led(LedCommandKind::SetStripState),
            supported: false,
            duration: None,
        },
        _ => CommandDescriptor {
            label: "Fade in frame (full frame)",
            description: "Fade into a provided LED frame. Not yet supported in this UI.",
            kind: CommandKind::Led(LedCommandKind::FadeIn),
            supported: false,
            duration: None,
        },
    }
}

/// Every command that takes a frame is unsupported, and no other.
pub proof fn frames_are_not_supported(index: int)
    requires
        0 <= index < COMMAND_COUNT,
    ensures
        command_at(index).supported <==> command_at(index).kind != CommandKind::Led(
            LedCommandKind::SetStripState,
        ) && command_at(index).kind != CommandKind::Led(LedCommandKind::FadeIn),
{
}

/// No command is offered twice, and all are supported but those that take a whole frame.
/// The time fields belong to inhibiting the idling and to fading out, and to nothing else.
pub proof fn commands_are_offered_once(a: int, b: int)
    requires
        0 <= a < COMMAND_COUNT,
        0 <= b < COMMAND_COUNT,
    ensures
        command_at(a).kind == command_at(b).kind ==> a == b,
        command_at(a).supported <==> command_at(a).kind != CommandKind::Led(
            LedCommandKind::SetStripState,
        ) && command_at(a).kind != CommandKind::Led(LedCommandKind::FadeIn),
        command_at(a).duration == Some(DurationField::IdleInhibit) <==> command_at(a).kind
            == CommandKind::IdleInhibit(true),
        command_at(a).duration == Some(DurationField::FadeOut) <==> command_at(a).kind
            == CommandKind::Led(LedCommandKind::FadeOut),
{
}

/// Whatever can be asked for is offered.
pub proof fn everything_is_offered(kind: CommandKind)
    ensures
        exists|i: int| 0 <= i < COMMAND_COUNT && (#[trigger] command_at(i)).kind == kind,
{
    assert(command_at(0).kind == CommandKind::GetManualMode);
    assert(command_at(1).kind == CommandKind::Manual(true));
    assert(command_at(2).kind == CommandKind::Manual(false));
    assert(command_at(3).kind == CommandKind::GetIdleInhibit);
    assert(command_at(4).kind == CommandKind::IdleInhibit(true));
    assert(command_at(5).kind == CommandKind::IdleInhibit(false));
    assert(command_at(6).kind == CommandKind::Kinect(KinectCommandKind::RequestStatus));
    assert(command_at(7).kind == CommandKind::Led(LedCommandKind::SetStaticColor));
    assert(command_at(8).kind == CommandKind::Led(LedCommandKind::Breathing));
    assert(command_at(9).kind == CommandKind::Led(LedCommandKind::FadeOut));
    assert(command_at(10).kind == CommandKind::Led(LedCommandKind::Rainbow));
    assert(command_at(11).kind == CommandKind::Led(LedCommandKind::SetStripState));
    assert(command_at(12).kind == CommandKind::Led(LedCommandKind::FadeIn));
}

} // verus!
