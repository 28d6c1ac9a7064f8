//! The mainboard's LED controller: which reports it is sent, and in which order.

use vstd::prelude::*;

use self::packets::{
    DirectModePacket, LedReport, PerLedPacket, SyncPacket, SYNC_JRAINBOW1_COUNT,
    SYNC_JRAINBOW1_OFFSET, SYNC_JRAINBOW2_COUNT, SYNC_JRAINBOW2_OFFSET, SYNC_JRGB_COUNT,
    SYNC_JRGB_OFFSET,
};
use crate::ledcomm;
use crate::ledcomm::{Pixel, StateFrame};
use crate::text::joined;

pub mod hid;
pub mod packets;
pub mod readback;

verus! {

/// What the LEDs are to show.
#[derive(Debug)]
pub enum Command {
    SetStaticColor(Pixel),
    SetStripState(StateFrame),
}

#[derive(Debug, Clone, Copy, PartialEq, Eq, Structural)]
pub enum MysticError {
    DeviceNotFound,
    Hid,
    Io,
    Join,
    Poisoned,
}

impl MysticError {
    /// The error as text. Where another error lies beneath, `cause` is its text.
    pub open spec fn text(self, cause: Seq<char>) -> Seq<char> {
        match self {
            MysticError::DeviceNotFound => "MSI Mystic 7D77 device not found"@,
            MysticError::Hid => "HID backend error: "@ + cause,
            MysticError::Io => "I/O error: "@ + cause,
            MysticError::Join => "task join error: "@ + cause,
            MysticError::Poisoned => "mutex poisoned"@,
        }
    }

    /// The error as text. Where another error lies beneath, `cause` is its text.
    pub fn message(self, cause: &str) -> (message: String)
        ensures
            message@ == self.text(cause@),
    {
        match self {
            MysticError::DeviceNotFound => String::from_str("MSI Mystic 7D77 device not found"),
            MysticError::Hid => joined("HID backend error: ", cause),
            MysticError::Io => joined("I/O error: ", cause),
            MysticError::Join => joined("task join error: ", cause),
            MysticError::Poisoned => String::from_str("mutex poisoned"),
        }
    }
}

/// The reports that are kept for the controller, as a value.
#[verifier::ext_equal]
pub struct MysticModel {
    /// The first rainbow header, of which 160 LEDs are there.
    pub jr1: LedReport,
    /// The second rainbow header, without LEDs.
    pub jr2: LedReport,
    /// The LEDs that are driven together: two plain ones and the first of each header.
    pub sync: LedReport,
}

impl MysticModel {
    /// Everything dark.
    pub open spec fn dark() -> MysticModel {
        MysticModel {
            jr1: LedReport::dark(seq![0x53, 0x25, 0x04, 0, 0]),
            jr2: LedReport::dark(seq![0x53, 0x25, 0x04, 0x01, 0]),
            sync: LedReport::dark(seq![0x53, 0x25, 0x06, 0, 0]),
        }
    }

    /// All LEDs in one colour.
    pub open spec fn in_one_color(self, color: Pixel) -> MysticModel {
        MysticModel {
            jr1: self.jr1.shows(0, 240, packets::uniform(160, color)),
            jr2: self.jr2.shows(0, 240, Seq::empty()),
            sync: self.sync.shows(0, 82, packets::uniform(82, color)),
        }
    }

    /// The colours of a strip: the first 160 on the first header, the first one on the
    /// plain LEDs, and the first 80 on the LEDs that are driven with them.
    pub open spec fn as_strip(self, state: Seq<Pixel>) -> MysticModel {
        MysticModel {
            jr1: self.jr1.shows(0, 240, state.take(160)),
            jr2: LedReport::dark(self.jr2.header),
            sync: self.sync.shows(0, 82, seq![state[0], state[0]] + state.take(80)),
        }
    }

    /// Everything off.
    pub open spec fn initialized(self) -> MysticModel {
        (MysticModel { sync: self.sync.shows(82, 158, Seq::empty()), ..self }).in_one_color(
            [0u8, 0u8, 0u8],
        )
    }

    /// The reports that are sent, in this order. There is none for the second header.
    pub open spec fn reports(self) -> Seq<Seq<u8>> {
        seq![self.jr1.bytes(), self.sync.bytes()]
    }

    pub open spec fn after(self, command: Command) -> MysticModel {
        match command {
            Command::SetStaticColor(color) => self.in_one_color(color),
            Command::SetStripState(state) => self.as_strip(state@),
        }
    }
}

/// The reports, as bytes.
pub open spec fn report_bytes(reports: Seq<Vec<u8>>) -> Seq<Seq<u8>> {
    Seq::new(reports.len(), |i: int| reports[i]@)
}

/// The controller.
#[derive(Debug)]
pub struct MysticDevice {
    direct_packet: DirectModePacket,
    jr1_packet: PerLedPacket,
    jr2_packet: PerLedPacket,
    sync_packet: SyncPacket,
}

impl View for MysticDevice {
    type V = MysticModel;

    closed spec fn view(&self) -> MysticModel {
        MysticModel {
            jr1: self.jr1_packet@,
            jr2: self.jr2_packet@,
            sync: self.sync_packet@,
        }
    }
}

impl MysticDevice {
    pub closed spec fn wf(&self) -> bool {
        &&& self.direct_packet@ == Seq::new(185, |i: int| packets::direct_byte(i))
        &&& self.jr1_packet.wf()
        &&& self.jr1_packet.active() == 160
        &&& self.jr2_packet.wf()
        &&& self.jr2_packet.active() == 0
        &&& self.sync_packet.wf()
    }

    /// A controller that was found.
    pub fn new() -> (device: Self)
        ensures
            device.wf(),
            device@ == MysticModel::dark(),
    {
        MysticDevice {
            direct_packet: DirectModePacket::new_unsynced(),
            jr1_packet: PerLedPacket::jr1(),
            jr2_packet: PerLedPacket::jr2(),
            sync_packet: SyncPacket::new(),
        }
    }

    /// The reports that put the controller under direct control and turn all LEDs off.
    pub fn initialize(&mut self) -> (reports: Vec<Vec<u8>>)
        requires
            old(self).wf(),
        ensures
            final(self).wf(),
            final(self)@ == old(self)@.initialized(),
            report_bytes(reports@) == seq![Seq::new(185, |i: int| packets::direct_byte(i))]
                + final(self)@.reports(),
    {
        self.sync_packet.clear_tail();
        self.apply_static_color([0u8, 0u8, 0u8]);
        let mut reports: Vec<Vec<u8>> = Vec::new();
        reports.push(self.direct_packet.as_bytes());
        let mut rest = self.flush();
        let ghost flushed = rest@;
        reports.append(&mut rest);
        assert(report_bytes(reports@) =~= seq![Seq::new(185, |i: int| packets::direct_byte(i))]
            + report_bytes(flushed));
        reports
    }

    /// Takes a command: the reports that carry it out come out, in this order.
    pub fn handle_command(&mut self, cmd: Command) -> (reports: Vec<Vec<u8>>)
        requires
            old(self).wf(),
        ensures
            final(self).wf(),
            final(self)@ == old(self)@.after(cmd),
            report_bytes(reports@) == final(self)@.reports(),
    {
        match cmd {
            Command::SetStaticColor(color) => {
                self.apply_static_color(color);
                self.flush()
            },
            Command::SetStripState(state) => {
                self.apply_strip_state(&state);
                self.flush()
            },
        }
    }

    fn apply_static_color(&mut self, color: Pixel)
        requires
            old(self).wf(),
        ensures
            final(self).wf(),
            final(self)@ == old(self)@.in_one_color(color),
    {
        self.jr1_packet.fill_constant(color);
        self.jr2_packet.fill_constant([0u8, 0u8, 0u8]);
        self.sync_packet.fill_constant_range(SYNC_JRGB_OFFSET, SYNC_JRGB_COUNT, color);
        self.sync_packet.fill_constant_range(SYNC_JRAINBOW1_OFFSET, SYNC_JRAINBOW1_COUNT, color);
        self.sync_packet.fill_constant_range(SYNC_JRAINBOW2_OFFSET, SYNC_JRAINBOW2_COUNT, color);
        assert(packets::uniform(0, [0u8, 0u8, 0u8]) =~= Seq::<Pixel>::empty());
        assert(self@ =~= old(self)@.in_one_color(color));
    }

    fn apply_strip_state(&mut self, state: &StateFrame)
        requires
            old(self).wf(),
        ensures
            final(self).wf(),
            final(self)@ == old(self)@.as_strip(state@),
    {
        self.jr1_packet.fill_from_slice(state);
        self.jr2_packet.clear();
        let primary: Pixel = state[0];
        self.sync_packet.set_led(SYNC_JRGB_OFFSET, primary);
        self.sync_packet.set_led(SYNC_JRGB_OFFSET + 1, primary);
        let first_segment = vstd::slice::slice_subrange(state, 0, SYNC_JRAINBOW1_COUNT);
        let rest = vstd::slice::slice_subrange(state, SYNC_JRAINBOW1_COUNT, ledcomm::NUM_LEDS);
        self.sync_packet.fill_range_from_slice(
            SYNC_JRAINBOW1_OFFSET,
            SYNC_JRAINBOW1_COUNT,
            first_segment,
        );
        self.sync_packet.fill_range_from_slice(SYNC_JRAINBOW2_OFFSET, SYNC_JRAINBOW2_COUNT, rest);
        assert(self@ =~= old(self)@.as_strip(state@));
    }

    fn flush(&self) -> (reports: Vec<Vec<u8>>)
        requires
            self.wf(),
        ensures
            report_bytes(reports@) == self@.reports(),
    {
        let mut reports: Vec<Vec<u8>> = Vec::new();
        reports.push(self.jr1_packet.as_bytes());
        if self.jr2_packet.has_content() {
            reports.push(self.jr2_packet.as_bytes());
        }
        reports.push(self.sync_packet.as_bytes());
        assert(report_bytes(reports@) =~= self@.reports());
        reports
    }
}

/// What the LEDs show is what the last command asked for, whatever they showed before.
pub proof fn last_command_counts(device: MysticModel, first: Command, last: Command)
    requires
        device.jr1.leds.len() == 240,
        device.jr2.leds.len() == 240,
        device.sync.leds.len() == 240,
    ensures
        device.after(first).after(last) == device.after(last),
{
    assert(device.after(first).after(last).jr1 =~= device.after(last).jr1);
    assert(device.after(first).after(last).jr2 =~= device.after(last).jr2);
    assert(device.after(first).after(last).sync =~= device.after(last).sync);
}

/// A strip of one colour is the same as that colour.
pub proof fn strip_of_one_color(device: MysticModel, color: Pixel)
    requires
        device.jr2.leds.len() == 240,
    ensures
        device.as_strip(packets::uniform(300, color)) == device.in_one_color(color),
{
    assert(device.as_strip(packets::uniform(300, color)).jr1 =~= device.in_one_color(color).jr1);
    assert(device.as_strip(packets::uniform(300, color)).jr2 =~= device.in_one_color(color).jr2);
    assert(device.as_strip(packets::uniform(300, color)).sync =~= device.in_one_color(color).sync);
}

/// One colour is shown by all LEDs that are there: the 160 of the first header and the 82
/// that are driven together; the places without LEDs are dark.
pub proof fn one_color_is_shown_everywhere(device: MysticModel, color: Pixel, led: int)
    requires
        device.jr1.leds.len() == 240,
        device.jr2.leds.len() == 240,
        device.sync.leds.len() == 240,
        0 <= led < 240,
    ensures
        ({
            let after = device.after(Command::SetStaticColor(color));
            &&& after.jr1.leds[led] == (if led < 160 {
                color
            } else {
                [0u8, 0u8, 0u8]
            })
            &&& after.jr2.leds[led] == [0u8, 0u8, 0u8]
            &&& led < 82 ==> after.sync.leds[led] == color
            &&& led >= 82 ==> after.sync.leds[led] == device.sync.leds[led]
            &&& after.jr1.header == device.jr1.header
            &&& after.jr2.header == device.jr2.header
            &&& after.sync.header == device.sync.header
        }),
{
}

/// A strip's colours go to the LEDs in order: the first 160 to the first header, its first one
/// to both plain LEDs, and its first 80 to those that are driven with them.
pub proof fn strip_is_spread_in_order(device: MysticModel, state: StateFrame, led: int)
    requires
        device.jr1.leds.len() == 240,
        device.jr2.leds.len() == 240,
        device.sync.leds.len() == 240,
        0 <= led < 240,
    ensures
        ({
            let after = device.after(Command::SetStripState(state));
            &&& after.jr1.leds[led] == (if led < 160 {
                state@[led]
            } else {
                [0u8, 0u8, 0u8]
            })
            &&& after.jr2.leds[led] == [0u8, 0u8, 0u8]
            &&& led < 2 ==> after.sync.leds[led] == state@[0]
            &&& 2 <= led < 82 ==> after.sync.leds[led] == state@[led - 2]
            &&& led >= 82 ==> after.sync.leds[led] == device.sync.leds[led]
            &&& after.jr1.header == device.jr1.header
            &&& after.jr2.header == device.jr2.header
            &&& after.sync.header == device.sync.header
        }),
{
}

/// What is sent for a command are two reports: one for the first header, then one for the
/// LEDs that are driven together, each with its own number in front and the colours that the
/// LEDs are to show.
pub proof fn reports_carry_the_colors(command: Command, led: int, channel: int)
    requires
        0 <= led < 240,
        0 <= channel < 3,
    ensures
        ({
            let after = MysticModel::dark().after(command);
            let reports = after.reports();
            &&& reports.len() == 2
            &&& reports[0].len() == 725
            &&& reports[1].len() == 725
            &&& reports[0].take(5) == seq![0x53u8, 0x25u8, 0x04u8, 0u8, 0u8]
            &&& reports[1].take(5) == seq![0x53u8, 0x25u8, 0x06u8, 0u8, 0u8]
            &&& reports[0][5 + 3 * led + channel] == after.jr1.leds[led]@[channel]
            &&& reports[1][5 + 3 * led + channel] == after.sync.leds[led]@[channel]
        }),
{
    let after = MysticModel::dark().after(command);
    packets::report_lies_in_order(after.jr1, led, channel);
    packets::report_lies_in_order(after.sync, led, channel);
}

/// Taking the controller over turns every LED off, whatever it showed, and leaves the headers
/// of the reports as they are.
pub proof fn takeover_turns_everything_off(device: MysticModel, led: int)
    requires
        device.jr1.leds.len() == 240,
        device.jr2.leds.len() == 240,
        device.sync.leds.len() == 240,
        0 <= led < 240,
    ensures
        device.initialized().jr1.leds[led] == [0u8, 0u8, 0u8],
        device.initialized().jr2.leds[led] == [0u8, 0u8, 0u8],
        device.initialized().sync.leds[led] == [0u8, 0u8, 0u8],
        device.initialized().jr1.header == device.jr1.header,
        device.initialized().jr2.header == device.jr2.header,
        device.initialized().sync.header == device.sync.header,
{
}

} // verus!
