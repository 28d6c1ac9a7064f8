//! A strip that shows what it is told at once.

use vstd::prelude::*;

use super::esp32::Esp32Device;
use super::mystic::Command;
use crate::ledcomm;
use crate::ledcomm::{Frame, Pixel, MAGIC};

verus! {

/// What the manager of a strip met.
#[derive(Debug)]
pub enum StripEvent {
    Command(Command),
    /// Nobody is left to give commands.
    ChannelClosed,
    Cancelled,
}

/// What the manager does next.
#[derive(Debug)]
pub enum StripAction {
    /// This packet is written to the strip.
    Write(Vec<u8>),
    /// The strip is closed and the manager ends.
    Exit,
}

/// What the manager reports.
#[derive(Debug, Clone, Copy, PartialEq, Eq, Structural)]
pub enum StripReport {
    Done,
    Error,
}

/// The manager of a strip.
#[derive(Debug)]
pub struct StripManager {
    device: Esp32Device,
}

/// The pixels that a command asks for.
pub open spec fn shown(command: Command) -> Seq<Pixel> {
    match command {
        Command::SetStaticColor(color) => Seq::new(300, |i: int| color),
        Command::SetStripState(state) => state@,
    }
}

/// The packet that shows some pixels.
pub open spec fn packet_of(pixels: Seq<Pixel>) -> Seq<u8> {
    MAGIC@ + ledcomm::le16(900) + ledcomm::pixel_bytes(pixels)
}

impl StripManager {
    /// The frame that was sent last.
    pub closed spec fn held(&self) -> Frame {
        self.device.held()
    }

    pub fn new() -> (manager: Self)
        ensures
            manager.held().magic@ == MAGIC@,
            manager.held().len == 900,
            manager.held().data@ == ledcomm::dark(300),
    {
        StripManager { device: Esp32Device::new() }
    }

    /// Takes an event.
    pub fn step(&mut self, event: StripEvent) -> (action: StripAction)
        ensures
            match (event, action) {
                (StripEvent::Command(command), StripAction::Write(packet)) => packet@ == packet_of(
                    shown(command),
                ),
                (StripEvent::Command(_), StripAction::Exit) => false,
                (_, StripAction::Exit) => true,
                (_, StripAction::Write(_)) => false,
            },
            match event {
                StripEvent::Command(command) => final(self).held().carries(shown(command)),
                _ => final(self).held() == old(self).held(),
            },
    {
        match event {
            StripEvent::Command(command) => StripAction::Write(self.handle_command(command)),
            _ => StripAction::Exit,
        }
    }

    /// The packet for a command.
    pub fn handle_command(&mut self, command: Command) -> (packet: Vec<u8>)
        ensures
            packet@ == packet_of(shown(command)),
            final(self).held().carries(shown(command)),
    {
        match command {
            Command::SetStaticColor(color) => self.device.send_static_color(color),
            Command::SetStripState(state) => self.device.send_strip_state(&state),
        }
    }

    /// The last packet: it makes the strip dark.
    pub fn close(&mut self) -> (packet: Vec<u8>)
        ensures
            packet@ == packet_of(ledcomm::dark(300)),
            final(self).held().carries(ledcomm::dark(300)),
    {
        let packet = self.device.close();
        assert(ledcomm::pixel_bytes(ledcomm::dark(300)) =~= ledcomm::zeros(900));
        packet
    }
}

/// What is reported of a packet that was written, or could not be.
pub fn written(succeeded: bool) -> (report: StripReport)
    ensures
        report == (if succeeded {
            StripReport::Done
        } else {
            StripReport::Error
        }),
{
    if succeeded {
        StripReport::Done
    } else {
        StripReport::Error
    }
}

/// A command shows its colour on every LED, or each LED's own, and the packet for it is what
/// a controller needs to show exactly that: header, length, and each LED's red, green and
/// blue.
pub proof fn packet_shows_command(command: Command, led: int, channel: int)
    requires
        0 <= led < 300,
        0 <= channel < 3,
    ensures
        ({
            let packet = packet_of(shown(command));
            &&& packet.len() == 906
            &&& packet.take(6) == seq![76u8, 69u8, 68u8, 83u8, 132u8, 3u8]
            &&& packet[6 + 3 * led + channel] == (match command {
                Command::SetStaticColor(color) => color@[channel],
                Command::SetStripState(state) => state@[led]@[channel],
            })
        }),
{
    let packet = packet_of(shown(command));
    let i = 3 * led + channel;
    assert(i / 3 == led && i % 3 == channel);
    assert(packet[6 + i] == ledcomm::pixel_bytes(shown(command))[i]);
    assert(MAGIC@ =~= seq![76u8, 69u8, 68u8, 83u8]);
    assert(packet.take(6) =~= seq![76u8, 69u8, 68u8, 83u8, 132u8, 3u8]);
}

} // verus!
