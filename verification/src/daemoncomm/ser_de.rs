//! LED commands as they are put on the wire.

use vstd::prelude::*;

use crate::daemoncomm::{Color, LedCommand};
use crate::ledcomm;
use crate::ledcomm::{state_frame_as_bytes, state_frame_as_bytes_mut, zero_state_frame};
use crate::ledcomm::{StateFrame, STATE_BYTES};

verus! {

/// The arguments of a fade: formerly the bytes of the frame alone.
#[derive(Debug)]
pub enum FadeInArgs {
    Legacy(Vec<u8>),
    Detailed { state: Vec<u8>, duration_ms: Option<u64> },
}

/// An LED command with its frame as raw bytes.
#[derive(Debug)]
pub enum WireLedCommand {
    SetStaticColor(Color),
    SetStripState(Vec<u8>),
    FadeIn(FadeInArgs),
    FadeOut { duration_ms: Option<u64> },
    Rainbow,
    Breathing(Color),
}

/// The number of bytes that were there in place of a frame's.
#[derive(Debug, Clone, Copy, PartialEq, Eq, Structural)]
pub struct InvalidLength {
    pub len: usize,
}

impl InvalidLength {
    /// What was expected instead.
    pub fn expected(&self) -> (text: &'static str)
        ensures
            text@ == "expected 900 bytes for StateFrame"@,
    {
        "expected 900 bytes for StateFrame"
    }
}

/// The bytes of a frame as they are sent.
pub fn encode_frame(frame: &StateFrame) -> (bytes: Vec<u8>)
    ensures
        bytes@ == ledcomm::pixel_bytes(frame@),
{
    let mut bytes: Vec<u8> = Vec::new();
    bytes.extend_from_slice(state_frame_as_bytes(frame));
    assert(bytes@ =~= ledcomm::pixel_bytes(frame@));
    bytes
}

/// The frame with these bytes, of which there must be exactly as many as a frame
/// has.
pub fn decode_frame(bytes: &[u8]) -> (result: Result<StateFrame, InvalidLength>)
    ensures
        bytes@.len() == STATE_BYTES ==> result is Ok && ledcomm::pixel_bytes(result->Ok_0@)
            == bytes@,
        bytes@.len() != STATE_BYTES ==> result == Err::<StateFrame, InvalidLength>(
            InvalidLength { len: bytes@.len() as usize },
        ),
{
    if bytes.len() != STATE_BYTES {
        return Err(InvalidLength { len: bytes.len() });
    }
    let mut frame = zero_state_frame();
    let flat = state_frame_as_bytes_mut(&mut frame);
    let mut i: usize = 0;
    while i < STATE_BYTES
        invariant
            i <= STATE_BYTES,
            bytes@.len() == STATE_BYTES,
            flat@.len() == STATE_BYTES,
            forall|j: int| 0 <= j < i ==> flat@[j] == bytes@[j],
        decreases STATE_BYTES - i,
    {
        flat[i] = bytes[i];
        i += 1;
    }
    assert(ledcomm::pixel_bytes(frame@) =~= bytes@);
    Ok(frame)
}

impl WireLedCommand {
    /// The frame bytes that the command carries.
    pub open spec fn frame_bytes(&self) -> Option<Seq<u8>> {
        match self {
            WireLedCommand::SetStripState(bytes) => Some(bytes@),
            WireLedCommand::FadeIn(FadeInArgs::Legacy(bytes)) => Some(bytes@),
            WireLedCommand::FadeIn(FadeInArgs::Detailed { state, duration_ms }) => Some(state@),
            _ => None,
        }
    }

    /// Whether this is a way to send `command`.
    pub open spec fn stands_for(&self, command: LedCommand) -> bool {
        match (*self, command) {
            (WireLedCommand::SetStaticColor(a), LedCommand::SetStaticColor(b)) => a == b,
            (WireLedCommand::SetStripState(bytes), LedCommand::SetStripState(state)) => bytes@
                == ledcomm::pixel_bytes(state@),
            (
                WireLedCommand::FadeIn(FadeInArgs::Legacy(bytes)),
                LedCommand::FadeIn { state, duration_ms },
            ) => bytes@ == ledcomm::pixel_bytes(state@) && duration_ms is None,
            (
                WireLedCommand::FadeIn(FadeInArgs::Detailed { state: bytes, duration_ms: wire }),
                LedCommand::FadeIn { state, duration_ms },
            ) => bytes@ == ledcomm::pixel_bytes(state@) && duration_ms == wire,
            (
                WireLedCommand::FadeOut { duration_ms: wire },
                LedCommand::FadeOut { duration_ms },
            ) => duration_ms == wire,
            (WireLedCommand::Rainbow, LedCommand::Rainbow) => true,
            (WireLedCommand::Breathing(a), LedCommand::Breathing(b)) => a == b,
            _ => false,
        }
    }
}

impl LedCommand {
    /// The command that was sent; a frame of the wrong length is refused.
    pub fn from_wire(wire: WireLedCommand) -> (result: Result<LedCommand, InvalidLength>)
        ensures
            match wire.frame_bytes() {
                Some(bytes) => if bytes.len() == STATE_BYTES {
                    result is Ok
                } else {
                    result == Err::<LedCommand, InvalidLength>(
                        InvalidLength { len: bytes.len() as usize },
                    )
                },
                None => result is Ok,
            },
            result is Ok ==> wire.stands_for(result->Ok_0),
    {
        match wire {
            WireLedCommand::SetStaticColor(color) => Ok(LedCommand::SetStaticColor(color)),
            WireLedCommand::SetStripState(bytes) => match decode_frame(bytes.as_slice()) {
                Ok(state) => Ok(LedCommand::SetStripState(state)),
                Err(err) => Err(err),
            },
            WireLedCommand::FadeIn(FadeInArgs::Legacy(bytes)) => match decode_frame(
                bytes.as_slice(),
            ) {
                Ok(state) => Ok(LedCommand::FadeIn { state, duration_ms: None }),
                Err(err) => Err(err),
            },
            WireLedCommand::FadeIn(FadeInArgs::Detailed { state: bytes, duration_ms }) => {
                match decode_frame(bytes.as_slice()) {
                    Ok(state) => Ok(LedCommand::FadeIn { state, duration_ms }),
                    Err(err) => Err(err),
                }
            },
            WireLedCommand::FadeOut { duration_ms } => Ok(LedCommand::FadeOut { duration_ms }),
            WireLedCommand::Rainbow => Ok(LedCommand::Rainbow),
            WireLedCommand::Breathing(color) => Ok(LedCommand::Breathing(color)),
        }
    }

    /// The command as it is sent; a fade always with the detailed arguments.
    pub fn to_wire(&self) -> (wire: WireLedCommand)
        ensures
            wire.stands_for(*self),
            wire is FadeIn ==> wire->FadeIn_0 is Detailed,
    {
        match self {
            LedCommand::SetStaticColor(color) => WireLedCommand::SetStaticColor(*color),
            LedCommand::SetStripState(state) => WireLedCommand::SetStripState(encode_frame(state)),
            LedCommand::FadeIn { state, duration_ms } => WireLedCommand::FadeIn(
                FadeInArgs::Detailed { state: encode_frame(state), duration_ms: *duration_ms },
            ),
            LedCommand::FadeOut { duration_ms } => WireLedCommand::FadeOut {
                duration_ms: *duration_ms,
            },
            LedCommand::Rainbow => WireLedCommand::Rainbow,
            LedCommand::Breathing(color) => WireLedCommand::Breathing(*color),
        }
    }

    /// The command's name on the wire.
    pub fn wire_name(&self) -> (name: &'static str)
        ensures
            name@ == match self {
                LedCommand::SetStaticColor(_) => "setStaticColor"@,
                LedCommand::SetStripState(_) => "setStripState"@,
                LedCommand::FadeIn { .. } => "fadeIn"@,
                LedCommand::FadeOut { .. } => "fadeOut"@,
                LedCommand::Rainbow => "rainbow"@,
                LedCommand::Breathing(_) => "breathing"@,
            },
    {
        match self {
            LedCommand::SetStaticColor(_) => "setStaticColor",
            LedCommand::SetStripState(_) => "setStripState",
            LedCommand::FadeIn { .. } => "fadeIn",
            LedCommand::FadeOut { .. } => "fadeOut",
            LedCommand::Rainbow => "rainbow",
            LedCommand::Breathing(_) => "breathing",
        }
    }

    /// Whether arguments follow the name: a fade out without a duration has none.
    pub fn has_wire_args(&self) -> (args: bool)
        ensures
            args == match self {
                LedCommand::FadeOut { duration_ms } => duration_ms is Some,
                LedCommand::Rainbow => false,
                _ => true,
            },
    {
        match self {
            LedCommand::FadeOut { duration_ms } => duration_ms.is_some(),
            LedCommand::Rainbow => false,
            _ => true,
        }
    }
}

/// Frames with the same bytes are the same frame.
pub proof fn frame_bytes_determine_frame(a: StateFrame, b: StateFrame)
    requires
        ledcomm::pixel_bytes(a@) == ledcomm::pixel_bytes(b@),
    ensures
        a == b,
{
    assert forall|i: int| 0 <= i < 300 implies a@[i] == b@[i] by {
        assert forall|c: int| 0 <= c < 3 implies a@[i]@[c] == b@[i]@[c] by {
            assert(ledcomm::pixel_bytes(a@)[3 * i + c] == a@[i]@[c]);
            assert(ledcomm::pixel_bytes(b@)[3 * i + c] == b@[i]@[c]);
        }
        assert(a@[i] =~= b@[i]);
    }
    assert(a =~= b);
}

/// A command that was sent and received is the same command: what is on the wire
/// stands for one command only.
pub proof fn wire_determines_command(wire: WireLedCommand, sent: LedCommand, received: LedCommand)
    requires
        wire.stands_for(sent),
        wire.stands_for(received),
    ensures
        received == sent,
{
    match (sent, received) {
        (LedCommand::SetStripState(a), LedCommand::SetStripState(b)) => {
            frame_bytes_determine_frame(a, b);
        },
        (LedCommand::FadeIn { state: a, .. }, LedCommand::FadeIn { state: b, .. }) => {
            frame_bytes_determine_frame(a, b);
        },
        _ => {},
    }
}

/// What stands for a command is never refused.
pub proof fn sent_command_is_received(wire: WireLedCommand, sent: LedCommand)
    requires
        wire.stands_for(sent),
    ensures
        wire.frame_bytes() matches Some(bytes) ==> bytes.len() == STATE_BYTES,
{
}

} // verus!
