//! The feature reports that the mainboard's LED controller is sent.

use vstd::prelude::*;

use crate::ledcomm;
use crate::ledcomm::Pixel;

verus! {

pub const REPORT_ID_FEATURE: u8 = 0x52;

pub const REPORT_ID_PER_LED: u8 = 0x53;

pub const PACKET_LEN: usize = 185;

pub const ZONE_LEN: usize = 10;

pub const RAINBOW_ZONE_LEN: usize = 11;

pub const J_RGB1_OFFSET: usize = 1;

pub const J_PIPE1_OFFSET: usize = 11;

pub const J_PIPE2_OFFSET: usize = 21;

pub const J_RAINBOW1_OFFSET: usize = 31;

pub const J_RAINBOW2_OFFSET: usize = 42;

pub const J_CORSAIR_OFFSET: usize = 53;

pub const J_CORSAIR_OUTER_OFFSET: usize = 64;

pub const ONBOARD_BASE_OFFSET: usize = 74;

pub const ONBOARD_COUNT: usize = 10;

pub const J_RGB2_OFFSET: usize = 174;

pub const SAVE_DATA_OFFSET: usize = 184;

pub const NUM_PER_LED_MODE_LEDS: usize = 240;

pub const PER_LED_PACKET_LEN: usize = 725;

pub const MSI_DIRECT_MODE: u8 = 0x25;

pub const MODE_STATIC: u8 = 0x01;

pub const SYNC_SETTING_ONBOARD: u8 = 0x01;

pub const SYNC_SETTING_JRAINBOW1: u8 = 0x02;

pub const SYNC_SETTING_JRAINBOW2: u8 = 0x04;

pub const SYNC_SETTING_JCORSAIR: u8 = 0x08;

pub const SYNC_SETTING_JPIPE1: u8 = 0x10;

pub const SYNC_SETTING_JPIPE2: u8 = 0x20;

pub const SYNC_SETTING_JRGB: u8 = 0x80;

/// All of the above.
pub const PER_LED_FULL_SYNC_MODE: u8 = 0xbf;

pub const JRAINBOW1_MAX_LED_COUNT: usize = 200;

pub const JRAINBOW2_MAX_LED_COUNT: usize = 240;

pub const JRAINBOW1_ACTIVE_LED_COUNT: usize = 160;

pub const JRAINBOW2_ACTIVE_LED_COUNT: usize = 0;

pub const SYNC_JRGB_OFFSET: usize = 0;

pub const SYNC_JRGB_COUNT: usize = 2;

pub const SYNC_JRAINBOW1_OFFSET: usize = 2;

pub const SYNC_JRAINBOW1_COUNT: usize = 40;

pub const SYNC_JRAINBOW2_OFFSET: usize = 42;

pub const SYNC_JRAINBOW2_COUNT: usize = 40;

/// Byte `k` of a zone.
pub open spec fn zone_byte(k: int, effect: u8, speed: u8, color_flags: u8) -> u8 {
    if k == 0 {
        effect
    } else if k == 4 {
        speed
    } else if k == 8 {
        color_flags
    } else {
        0
    }
}

/// Byte `i` of the report that puts the controller under direct control: both rainbow
/// headers and the first onboard LED, which the others are synchronised to.
pub open spec fn direct_byte(i: int) -> u8 {
    if i == 0 {
        REPORT_ID_FEATURE
    } else if i < J_PIPE1_OFFSET {
        zone_byte(i - J_RGB1_OFFSET, MODE_STATIC, 0x08, 0x80)
    } else if i < J_PIPE2_OFFSET {
        zone_byte(i - J_PIPE1_OFFSET, MODE_STATIC, 0x2a, 0x80)
    } else if i < J_RAINBOW1_OFFSET {
        zone_byte(i - J_PIPE2_OFFSET, MODE_STATIC, 0x2a, 0x80)
    } else if i < J_RAINBOW2_OFFSET {
        if i == J_RAINBOW1_OFFSET + 10 {
            200
        } else {
            zone_byte(i - J_RAINBOW1_OFFSET, MSI_DIRECT_MODE, 0x29, 0x80)
        }
    } else if i < J_CORSAIR_OFFSET {
        if i == J_RAINBOW2_OFFSET + 10 {
            240
        } else {
            zone_byte(i - J_RAINBOW2_OFFSET, MSI_DIRECT_MODE, 0x29, 0x80)
        }
    } else if i < J_CORSAIR_OUTER_OFFSET {
        zone_byte(i - J_CORSAIR_OFFSET, MODE_STATIC, 0x29, 0x80)
    } else if i < ONBOARD_BASE_OFFSET {
        zone_byte(i - J_CORSAIR_OUTER_OFFSET, MODE_STATIC, 0x28, 0x80)
    } else if i < ONBOARD_BASE_OFFSET + ZONE_LEN {
        zone_byte(i - ONBOARD_BASE_OFFSET, MSI_DIRECT_MODE, 0xa9, PER_LED_FULL_SYNC_MODE)
    } else if i < J_RGB2_OFFSET {
        zone_byte((i - ONBOARD_BASE_OFFSET) % 10, MODE_STATIC, 0x28, 0x80)
    } else if i < SAVE_DATA_OFFSET {
        zone_byte(i - J_RGB2_OFFSET, MODE_STATIC, 0x2a, 0x80)
    } else {
        0
    }
}

/// The report that puts the controller under direct control.
#[derive(Debug)]
pub struct DirectModePacket {
    bytes: [u8; PACKET_LEN],
}

impl View for DirectModePacket {
    type V = Seq<u8>;

    closed spec fn view(&self) -> Seq<u8> {
        self.bytes@
    }
}

impl DirectModePacket {
    pub fn new_unsynced() -> (packet: Self)
        ensures
            packet@ == Seq::new(PACKET_LEN as nat, |i: int| direct_byte(i)),
    {
        let mut this = DirectModePacket { bytes: [0u8; PACKET_LEN] };
        this.bytes[0] = REPORT_ID_FEATURE;
        this.write_zone(J_RGB1_OFFSET, MODE_STATIC, 0x08, 0x80);
        this.write_zone(J_PIPE1_OFFSET, MODE_STATIC, 0x2a, 0x80);
        this.write_zone(J_PIPE2_OFFSET, MODE_STATIC, 0x2a, 0x80);
        this.write_rainbow_zone(J_RAINBOW1_OFFSET, MSI_DIRECT_MODE, 0x29, 0x80, 200);
        this.write_rainbow_zone(J_RAINBOW2_OFFSET, MSI_DIRECT_MODE, 0x29, 0x80, 240);
        this.write_zone(J_CORSAIR_OFFSET, MODE_STATIC, 0x29, 0x80);
        this.write_zone(J_CORSAIR_OUTER_OFFSET, MODE_STATIC, 0x28, 0x80);
        this.write_zone(ONBOARD_BASE_OFFSET, MSI_DIRECT_MODE, 0xa9, PER_LED_FULL_SYNC_MODE);
        assert forall|i: int| 0 <= i < ONBOARD_BASE_OFFSET + ZONE_LEN implies this@[i]
            == direct_byte(i) by {}
        let mut idx: usize = 1;
        while idx < ONBOARD_COUNT
            invariant
                1 <= idx <= ONBOARD_COUNT,
                this@.len() == PACKET_LEN,
                forall|i: int|
                    0 <= i < ONBOARD_BASE_OFFSET + idx * ZONE_LEN ==> this@[i] == direct_byte(i),
                forall|i: int|
                    ONBOARD_BASE_OFFSET + idx * ZONE_LEN <= i < PACKET_LEN ==> this@[i] == 0,
            decreases ONBOARD_COUNT - idx,
        {
            let ghost before = this@;
            let offset: usize = ONBOARD_BASE_OFFSET + idx * ZONE_LEN;
            this.write_zone(offset, MODE_STATIC, 0x28, 0x80);
            assert forall|i: int| 0 <= i < offset + ZONE_LEN implies this@[i] == direct_byte(
                i,
            ) by {
                if i < offset {
                    assert(this@[i] == before[i]);
                } else {
                    assert((i - ONBOARD_BASE_OFFSET) % 10 == i - offset);
                }
            }
            idx += 1;
        }
        this.write_zone(J_RGB2_OFFSET, MODE_STATIC, 0x2a, 0x80);
        this.bytes[SAVE_DATA_OFFSET] = 0;
        assert(this@ =~= Seq::new(PACKET_LEN as nat, |i: int| direct_byte(i)));
        this
    }

    fn write_zone(&mut self, offset: usize, effect: u8, speed: u8, color_flags: u8)
        requires
            offset + ZONE_LEN <= PACKET_LEN,
        ensures
            final(self)@ == old(self)@.update(offset as int, effect).update(
                offset + 4,
                speed,
            ).update(offset + 8, color_flags),
    {
        self.bytes[offset] = effect;
        self.bytes[offset + 4] = speed;
        self.bytes[offset + 8] = color_flags;
    }

    fn write_rainbow_zone(
        &mut self,
        offset: usize,
        effect: u8,
        speed: u8,
        color_flags: u8,
        cycle: u8,
    )
        requires
            offset + RAINBOW_ZONE_LEN <= PACKET_LEN,
        ensures
            final(self)@ == old(self)@.update(offset as int, effect).update(
                offset + 4,
                speed,
            ).update(offset + 8, color_flags).update(offset + 10, cycle),
    {
        self.write_zone(offset, effect, speed, color_flags);
        self.bytes[offset + 10] = cycle;
    }

    /// The report.
    pub fn as_bytes(&self) -> (bytes: Vec<u8>)
        ensures
            bytes@ == self@,
    {
        let mut bytes: Vec<u8> = Vec::new();
        bytes.extend_from_slice(&self.bytes);
        assert(bytes@ =~= self@);
        bytes
    }
}

/// A report with a colour for every LED, as a value.
#[verifier::ext_equal]
pub struct LedReport {
    pub header: Seq<u8>,
    pub leds: Seq<Pixel>,
}

impl LedReport {
    /// A report with all LEDs dark.
    pub open spec fn dark(header: Seq<u8>) -> LedReport {
        LedReport { header, leds: ledcomm::dark(240) }
    }

    /// The report as it is sent.
    pub open spec fn bytes(self) -> Seq<u8> {
        self.header + ledcomm::pixel_bytes(self.leds)
    }

    /// LED `index` gets a colour, if there is such an LED.
    pub open spec fn lit(self, index: int, color: Pixel) -> LedReport {
        if index < self.leds.len() {
            LedReport { header: self.header, leds: self.leds.update(index, color) }
        } else {
            self
        }
    }

    /// `count` LEDs from `start` on show these colours, in order; those for which there
    /// is none are dark. The report has no place for LEDs past its last one.
    pub open spec fn shows(self, start: int, count: int, colors: Seq<Pixel>) -> LedReport {
        LedReport {
            header: self.header,
            leds: Seq::new(
                self.leds.len(),
                |i: int|
                    if start <= i < start + count {
                        if i - start < colors.len() {
                            colors[i - start]
                        } else {
                            [0u8, 0u8, 0u8]
                        }
                    } else {
                        self.leds[i]
                    },
            ),
        }
    }
}

/// `n` LEDs of one colour.
pub open spec fn uniform(n: nat, color: Pixel) -> Seq<Pixel> {
    Seq::new(n, |i: int| color)
}

#[derive(Debug, Clone, Copy)]
struct LedBytes {
    header: [u8; 5],
    leds: [Pixel; NUM_PER_LED_MODE_LEDS],
}

impl LedBytes {
    spec fn report(&self) -> LedReport {
        LedReport { header: self.header@, leds: self.leds@ }
    }

    fn new(header: [u8; 5]) -> (packet: Self)
        ensures
            packet.report() == LedReport::dark(header@),
    {
        let leds: [Pixel; NUM_PER_LED_MODE_LEDS] = [[0u8, 0u8, 0u8]; NUM_PER_LED_MODE_LEDS];
        let packet = LedBytes { header, leds };
        assert(packet.report() =~= LedReport::dark(header@));
        packet
    }

    fn set_led(&mut self, index: usize, color: Pixel)
        ensures
            final(self).report() == old(self).report().lit(index as int, color),
    {
        if index >= NUM_PER_LED_MODE_LEDS {
            return;
        }
        self.leds[index] = color;
    }

    fn fill(&mut self, start: usize, count: usize, colors: &[Pixel])
        requires
            start + count <= usize::MAX + 1,
        ensures
            final(self).report() == old(self).report().shows(
                start as int,
                count as int,
                colors@,
            ),
    {
        let mut i: usize = 0;
        while i < count
            invariant
                i <= count,
                start + count <= usize::MAX + 1,
                self.report() == old(self).report().shows(start as int, i as int, colors@),
            decreases count - i,
        {
            let color: Pixel = if i < colors.len() {
                colors[i]
            } else {
                [0u8, 0u8, 0u8]
            };
            self.set_led(start + i, color);
            i += 1;
            assert(self.report() =~= old(self).report().shows(start as int, i as int, colors@));
        }
        assert(self.report() =~= old(self).report().shows(start as int, count as int, colors@));
    }

    fn fill_constant(&mut self, start: usize, count: usize, color: Pixel)
        requires
            start + count <= usize::MAX + 1,
        ensures
            final(self).report() == old(self).report().shows(
                start as int,
                count as int,
                uniform(count as nat, color),
            ),
    {
        let mut i: usize = 0;
        let ghost colors = uniform(count as nat, color);
        while i < count
            invariant
                i <= count,
                colors == uniform(count as nat, color),
                start + count <= usize::MAX + 1,
                self.report() == old(self).report().shows(start as int, i as int, colors),
            decreases count - i,
        {
            self.set_led(start + i, color);
            i += 1;
            assert(self.report() =~= old(self).report().shows(start as int, i as int, colors));
        }
        assert(self.report() =~= old(self).report().shows(start as int, count as int, colors));
    }

    fn to_bytes(&self) -> (bytes: Vec<u8>)
        ensures
            bytes@ == self.report().bytes(),
    {
        let mut bytes: Vec<u8> = Vec::new();
        bytes.extend_from_slice(&self.header);
        assert(bytes@ =~= self.header@ + ledcomm::pixel_bytes(self.leds@.take(0)));
        let mut i: usize = 0;
        while i < NUM_PER_LED_MODE_LEDS
            invariant
                i <= NUM_PER_LED_MODE_LEDS,
                bytes@ == self.header@ + ledcomm::pixel_bytes(self.leds@.take(i as int)),
            decreases NUM_PER_LED_MODE_LEDS - i,
        {
            let pixel: Pixel = self.leds[i];
            bytes.push(pixel[0]);
            bytes.push(pixel[1]);
            bytes.push(pixel[2]);
            i += 1;
            assert(bytes@ =~= self.header@ + ledcomm::pixel_bytes(self.leds@.take(i as int)));
        }
        assert(self.leds@.take(i as int) =~= self.leds@);
        bytes
    }
}

/// The report for the LEDs of one rainbow header. A header has room for some LEDs, of
/// which the first ones are there.
#[derive(Debug)]
pub struct PerLedPacket {
    packet: LedBytes,
    active_len: usize,
}

impl View for PerLedPacket {
    type V = LedReport;

    closed spec fn view(&self) -> LedReport {
        self.packet.report()
    }
}

impl PerLedPacket {
    /// The number of LEDs that are there.
    pub closed spec fn active(&self) -> nat {
        self.active_len as nat
    }

    pub open spec fn wf(&self) -> bool {
        &&& self@.leds.len() == NUM_PER_LED_MODE_LEDS
        &&& self.active() <= NUM_PER_LED_MODE_LEDS
    }

    /// The report for the first header.
    pub fn jr1() -> (packet: Self)
        ensures
            packet.wf(),
            packet@ == LedReport::dark(seq![REPORT_ID_PER_LED, 0x25, 0x04, 0, 0]),
            packet.active() == JRAINBOW1_ACTIVE_LED_COUNT,
    {
        let header: [u8; 5] = [REPORT_ID_PER_LED, 0x25, 0x04, 0, 0];
        assert(header@ =~= seq![REPORT_ID_PER_LED, 0x25, 0x04, 0, 0]);
        PerLedPacket { packet: LedBytes::new(header), active_len: JRAINBOW1_ACTIVE_LED_COUNT }
    }

    /// The report for the second header.
    pub fn jr2() -> (packet: Self)
        ensures
            packet.wf(),
            packet@ == LedReport::dark(seq![REPORT_ID_PER_LED, 0x25, 0x04, 0x01, 0]),
            packet.active() == JRAINBOW2_ACTIVE_LED_COUNT,
    {
        let header: [u8; 5] = [REPORT_ID_PER_LED, 0x25, 0x04, 0x01, 0];
        assert(header@ =~= seq![REPORT_ID_PER_LED, 0x25, 0x04, 0x01, 0]);
        PerLedPacket { packet: LedBytes::new(header), active_len: JRAINBOW2_ACTIVE_LED_COUNT }
    }

    /// All LEDs that are there get one colour; the others are dark.
    pub fn fill_constant(&mut self, color: Pixel)
        requires
            old(self).wf(),
        ensures
            final(self).wf(),
            final(self).active() == old(self).active(),
            final(self)@ == old(self)@.shows(0, 240, uniform(old(self).active(), color)),
    {
        let ghost colors = uniform(self.active(), color);
        let active: usize = self.active_len;
        self.packet.fill_constant(0, active, color);
        let none: [Pixel; 0] = [];
        self.packet.fill(active, NUM_PER_LED_MODE_LEDS - active, &none);
        assert(self@ =~= old(self)@.shows(0, 240, colors));
    }

    /// The LEDs that are there get these colours, in order; where there is none, and
    /// behind the last of them, it is dark.
    pub fn fill_from_slice(&mut self, colors: &[Pixel])
        requires
            old(self).wf(),
        ensures
            final(self).wf(),
            final(self).active() == old(self).active(),
            final(self)@ == old(self)@.shows(
                0,
                240,
                if colors@.len() <= old(self).active() {
                    colors@
                } else {
                    colors@.take(old(self).active() as int)
                },
            ),
    {
        let active: usize = self.active_len;
        self.packet.fill(0, active, colors);
        let none: [Pixel; 0] = [];
        self.packet.fill(active, NUM_PER_LED_MODE_LEDS - active, &none);
        assert(self@ =~= old(self)@.shows(
            0,
            240,
            if colors@.len() <= old(self).active() {
                colors@
            } else {
                colors@.take(old(self).active() as int)
            },
        ));
    }

    /// All LEDs are dark.
    pub fn clear(&mut self)
        requires
            old(self).wf(),
        ensures
            final(self).wf(),
            final(self).active() == old(self).active(),
            final(self)@ == LedReport::dark(old(self)@.header),
    {
        let none: [Pixel; 0] = [];
        self.packet.fill(0, NUM_PER_LED_MODE_LEDS, &none);
        assert(self@ =~= LedReport::dark(old(self)@.header));
    }

    /// Whether there are LEDs to send the report for.
    pub fn has_content(&self) -> (content: bool)
        ensures
            content == (self.active() > 0),
    {
        self.active_len > 0
    }

    /// The report.
    pub fn as_bytes(&self) -> (bytes: Vec<u8>)
        ensures
            bytes@ == self@.bytes(),
    {
        self.packet.to_bytes()
    }
}

/// The report for the LEDs that are driven together.
#[derive(Debug)]
pub struct SyncPacket {
    packet: LedBytes,
}

impl View for SyncPacket {
    type V = LedReport;

    closed spec fn view(&self) -> LedReport {
        self.packet.report()
    }
}

impl SyncPacket {
    pub open spec fn wf(&self) -> bool {
        self@.leds.len() == NUM_PER_LED_MODE_LEDS
    }

    pub fn new() -> (packet: Self)
        ensures
            packet.wf(),
            packet@ == LedReport::dark(seq![REPORT_ID_PER_LED, 0x25, 0x06, 0, 0]),
    {
        let header: [u8; 5] = [REPORT_ID_PER_LED, 0x25, 0x06, 0, 0];
        assert(header@ =~= seq![REPORT_ID_PER_LED, 0x25, 0x06, 0, 0]);
        SyncPacket { packet: LedBytes::new(header) }
    }

    /// One LED gets a colour, if there is such an LED.
    pub fn set_led(&mut self, index: usize, color: Pixel)
        requires
            old(self).wf(),
        ensures
            final(self).wf(),
            final(self)@ == old(self)@.lit(index as int, color),
    {
        self.packet.set_led(index, color);
    }

    /// Some LEDs in a row get one colour; where there is no such LED it is left out.
    pub fn fill_constant_range(&mut self, start: usize, count: usize, color: Pixel)
        requires
            old(self).wf(),
            start + count <= usize::MAX + 1,
        ensures
            final(self).wf(),
            final(self)@ == old(self)@.shows(
                start as int,
                count as int,
                uniform(count as nat, color),
            ),
    {
        self.packet.fill_constant(start, count, color);
    }

    /// Some LEDs in a row get these colours, in order, and are dark where there is no
    /// colour; where there is no such LED it is left out.
    pub fn fill_range_from_slice(&mut self, start: usize, count: usize, colors: &[Pixel])
        requires
            old(self).wf(),
            start + count <= usize::MAX + 1,
        ensures
            final(self).wf(),
            final(self)@ == old(self)@.shows(start as int, count as int, colors@),
    {
        self.packet.fill(start, count, colors);
    }

    /// The LEDs behind those that are driven are dark.
    pub fn clear_tail(&mut self)
        requires
            old(self).wf(),
        ensures
            final(self).wf(),
            final(self)@ == old(self)@.shows(82, 158, Seq::empty()),
    {
        let none: [Pixel; 0] = [];
        let start: usize = SYNC_JRAINBOW2_OFFSET + SYNC_JRAINBOW2_COUNT;
        self.packet.fill(start, NUM_PER_LED_MODE_LEDS - start, &none);
        assert(none@ =~= Seq::<Pixel>::empty());
    }

    /// The report.
    pub fn as_bytes(&self) -> (bytes: Vec<u8>)
        ensures
            bytes@ == self@.bytes(),
    {
        self.packet.to_bytes()
    }
}

/// A report is its header and then each LED's red, green and blue.
pub proof fn report_lies_in_order(report: LedReport, led: int, channel: int)
    requires
        report.header.len() == 5,
        0 <= led < report.leds.len(),
        0 <= channel < 3,
    ensures
        report.bytes().len() == 5 + 3 * report.leds.len(),
        report.bytes().take(5) == report.header,
        report.bytes()[5 + 3 * led + channel] == report.leds[led]@[channel],
{
    let i = 3 * led + channel;
    assert(i / 3 == led && i % 3 == channel);
    assert(report.bytes()[5 + i] == ledcomm::pixel_bytes(report.leds)[i]);
    assert(report.bytes().take(5) =~= report.header);
}

/// Setting some LEDs sets those, each to its own colour or dark, and leaves the others and
/// the header alone.
pub proof fn setting_leds_sets_only_those(
    report: LedReport,
    start: int,
    count: int,
    colors: Seq<Pixel>,
    led: int,
    color: Pixel,
)
    requires
        0 <= led < report.leds.len(),
        0 <= start,
        0 <= count,
    ensures
        ({
            let after = report.shows(start, count, colors);
            &&& after.header == report.header
            &&& after.leds.len() == report.leds.len()
            &&& led < start || start + count <= led ==> after.leds[led] == report.leds[led]
            &&& start <= led < start + count && led - start < colors.len() ==> after.leds[led]
                == colors[led - start]
            &&& start <= led < start + count && colors.len() <= led - start ==> after.leds[led]
                == [0u8, 0u8, 0u8]
            &&& report.lit(led, color).leds[led] == color
            &&& report.lit(led, color).header == report.header
            &&& start != led && 0 <= start < report.leds.len() ==> report.lit(
                led,
                color,
            ).leds[start] == report.leds[start]
        }),
{
}

/// The report that takes the controller over puts both rainbow headers and the first onboard
/// LED under direct control, everything else on a static colour, and synchronises every part
/// of the board; nothing is saved.
pub proof fn takeover_report_takes_over()
    ensures
        direct_byte(0) == 0x52,
        direct_byte(31) == 0x25,
        direct_byte(42) == 0x25,
        direct_byte(74) == 0x25,
        direct_byte(1) == 1,
        direct_byte(11) == 1,
        direct_byte(21) == 1,
        direct_byte(53) == 1,
        direct_byte(64) == 1,
        direct_byte(174) == 1,
        forall|k: int| 1 <= k < 10 ==> #[trigger] direct_byte(74 + 10 * k) == 1,
        direct_byte(82) == 0xbf,
        direct_byte(41) == 200,
        direct_byte(52) == 240,
        direct_byte(184) == 0,
{
    assert forall|k: int| 1 <= k < 10 implies #[trigger] direct_byte(74 + 10 * k) == 1 by {
        assert((10 * k) % 10 == 0);
    }
}

} // verus!
