//! What the controller reports of itself.

use vstd::prelude::*;

use super::packets;
use super::packets::{
    J_CORSAIR_OFFSET, J_PIPE1_OFFSET, J_PIPE2_OFFSET, J_RAINBOW1_OFFSET, J_RAINBOW2_OFFSET,
    MODE_STATIC, MSI_DIRECT_MODE, NUM_PER_LED_MODE_LEDS, ONBOARD_BASE_OFFSET, PACKET_LEN,
    PER_LED_PACKET_LEN, RAINBOW_ZONE_LEN, SAVE_DATA_OFFSET, SYNC_SETTING_JCORSAIR,
    SYNC_SETTING_JPIPE1, SYNC_SETTING_JPIPE2, SYNC_SETTING_JRAINBOW1, SYNC_SETTING_JRAINBOW2,
    SYNC_SETTING_JRGB, SYNC_SETTING_ONBOARD, ZONE_LEN,
};
use crate::ledcomm::Pixel;

verus! {

/// A mode and what it is called.
#[derive(Debug, Clone, Copy)]
pub struct ModeDesc {
    pub raw: u8,
    pub label: &'static str,
}

impl ModeDesc {
    pub open spec fn label_of(raw: u8) -> Seq<char> {
        if raw == 0 {
            "disabled"@
        } else if raw == MODE_STATIC {
            "static"@
        } else if raw == MSI_DIRECT_MODE {
            "direct"@
        } else {
            "unknown"@
        }
    }

    pub fn new(raw: u8) -> (mode: Self)
        ensures
            mode.raw == raw,
            mode.label@ == Self::label_of(raw),
    {
        let label = if raw == 0 {
            "disabled"
        } else if raw == MODE_STATIC {
            "static"
        } else if raw == MSI_DIRECT_MODE {
            "direct"
        } else {
            "unknown"
        };
        ModeDesc { raw, label }
    }
}

/// The parts of the board that are synchronised.
#[derive(Debug, Clone, Copy, PartialEq, Eq, Structural)]
pub struct SyncTargets {
    pub raw: u8,
    pub onboard: bool,
    pub jrainbow1: bool,
    pub jrainbow2: bool,
    pub jcorsair: bool,
    pub jpipe1: bool,
    pub jpipe2: bool,
    pub jrgb: bool,
}

impl SyncTargets {
    /// Reads the flags: a bit for each part.
    pub fn from_flags(flags: u8) -> (targets: Self)
        ensures
            targets.raw == flags,
            targets.onboard == (flags % 2 == 1),
            targets.jrainbow1 == (flags / 2 % 2 == 1),
            targets.jrainbow2 == (flags / 4 % 2 == 1),
            targets.jcorsair == (flags / 8 % 2 == 1),
            targets.jpipe1 == (flags / 16 % 2 == 1),
            targets.jpipe2 == (flags / 32 % 2 == 1),
            targets.jrgb == (flags / 128 == 1),
    {
        assert((flags & 0x01 != 0) == (flags % 2 == 1) && (flags & 0x02 != 0) == (flags / 2 % 2
            == 1) && (flags & 0x04 != 0) == (flags / 4 % 2 == 1) && (flags & 0x08 != 0) == (flags
            / 8 % 2 == 1) && (flags & 0x10 != 0) == (flags / 16 % 2 == 1) && (flags & 0x20 != 0)
            == (flags / 32 % 2 == 1) && (flags & 0x80 != 0) == (flags / 128 == 1)) by (bit_vector);
        SyncTargets {
            raw: flags,
            onboard: flags & SYNC_SETTING_ONBOARD != 0,
            jrainbow1: flags & SYNC_SETTING_JRAINBOW1 != 0,
            jrainbow2: flags & SYNC_SETTING_JRAINBOW2 != 0,
            jcorsair: flags & SYNC_SETTING_JCORSAIR != 0,
            jpipe1: flags & SYNC_SETTING_JPIPE1 != 0,
            jpipe2: flags & SYNC_SETTING_JPIPE2 != 0,
            jrgb: flags & SYNC_SETTING_JRGB != 0,
        }
    }
}

/// Byte `k` of a zone, or zero behind its end.
pub open spec fn byte_or_zero(zone: Seq<u8>, k: int) -> u8 {
    if k < zone.len() {
        zone[k]
    } else {
        0
    }
}

fn byte_at(zone: &[u8], k: usize) -> (byte: u8)
    ensures
        byte == byte_or_zero(zone@, k as int),
{
    if k < zone.len() {
        zone[k]
    } else {
        0
    }
}

fn color_at(zone: &[u8], k: usize) -> (color: Pixel)
    requires
        k < 100,
    ensures
        color@ == seq![
            byte_or_zero(zone@, k as int),
            byte_or_zero(zone@, k + 1),
            byte_or_zero(zone@, k + 2),
        ],
{
    let color: Pixel = [byte_at(zone, k), byte_at(zone, k + 1), byte_at(zone, k + 2)];
    assert(color@ =~= seq![
        byte_or_zero(zone@, k as int),
        byte_or_zero(zone@, k + 1),
        byte_or_zero(zone@, k + 2),
    ]);
    color
}

#[derive(Debug, Clone, Copy)]
pub struct ZoneSummary {
    pub mode: ModeDesc,
    pub speed: u8,
    pub brightness: u8,
    pub color_flags: u8,
    pub primary: Pixel,
    pub secondary: Pixel,
}

impl ZoneSummary {
    /// Whether this summarises the zone. What the zone is too short for is zero.
    pub open spec fn summarises(&self, zone: Seq<u8>) -> bool {
        &&& self.mode.raw == byte_or_zero(zone, 0)
        &&& self.mode.label@ == ModeDesc::label_of(byte_or_zero(zone, 0))
        &&& self.speed == byte_or_zero(zone, 4) % 4
        &&& self.brightness == byte_or_zero(zone, 4) / 4 % 32
        &&& self.color_flags == byte_or_zero(zone, 8)
        &&& self.primary@ == seq![
            byte_or_zero(zone, 1),
            byte_or_zero(zone, 2),
            byte_or_zero(zone, 3),
        ]
        &&& self.secondary@ == seq![
            byte_or_zero(zone, 5),
            byte_or_zero(zone, 6),
            byte_or_zero(zone, 7),
        ]
    }

    pub fn from_zone(zone: &[u8]) -> (summary: Self)
        ensures
            summary.summarises(zone@),
    {
        let speed_and_brightness: u8 = byte_at(zone, 4);
        assert(speed_and_brightness & 0x03 == speed_and_brightness % 4 && (speed_and_brightness
            >> 2) & 0x1f == speed_and_brightness / 4 % 32) by (bit_vector);
        ZoneSummary {
            mode: ModeDesc::new(byte_at(zone, 0)),
            speed: speed_and_brightness & 0x03,
            brightness: (speed_and_brightness >> 2) & 0x1f,
            color_flags: byte_at(zone, 8),
            primary: color_at(zone, 1),
            secondary: color_at(zone, 5),
        }
    }
}

#[derive(Debug, Clone, Copy)]
pub struct RainbowZoneSummary {
    pub zone: ZoneSummary,
    pub cycle: u8,
}

impl RainbowZoneSummary {
    pub open spec fn summarises(&self, zone: Seq<u8>) -> bool {
        &&& self.zone.summarises(zone)
        &&& self.cycle == byte_or_zero(zone, 10)
    }

    pub fn from_zone(zone: &[u8]) -> (summary: Self)
        ensures
            summary.summarises(zone@),
    {
        RainbowZoneSummary {
            zone: ZoneSummary::from_zone(zone),
            cycle: byte_at(zone, RAINBOW_ZONE_LEN - 1),
        }
    }
}

#[derive(Debug, Clone, Copy)]
pub struct CorsairZoneSummary {
    pub mode: ModeDesc,
    pub color: Pixel,
    pub fan_flags: u8,
    pub quantity: u8,
    pub individual: bool,
}

impl CorsairZoneSummary {
    pub open spec fn summarises(&self, zone: Seq<u8>) -> bool {
        &&& self.mode.raw == byte_or_zero(zone, 0)
        &&& self.mode.label@ == ModeDesc::label_of(byte_or_zero(zone, 0))
        &&& self.color@ == seq![
            byte_or_zero(zone, 1),
            byte_or_zero(zone, 2),
            byte_or_zero(zone, 3),
        ]
        &&& self.fan_flags == byte_or_zero(zone, 4)
        &&& self.quantity == byte_or_zero(zone, 5)
        &&& self.individual == (byte_or_zero(zone, 10) != 0)
    }

    pub fn from_zone(zone: &[u8]) -> (summary: Self)
        ensures
            summary.summarises(zone@),
    {
        CorsairZoneSummary {
            mode: ModeDesc::new(byte_at(zone, 0)),
            color: color_at(zone, 1),
            fan_flags: byte_at(zone, 4),
            quantity: byte_at(zone, 5),
            individual: byte_at(zone, 10) != 0,
        }
    }
}

/// The controller's settings.
#[derive(Debug, Clone, Copy)]
pub struct FeatureReportState {
    pub report_id: u8,
    pub direct_mode_enabled: bool,
    pub onboard: ZoneSummary,
    pub sync: SyncTargets,
    pub jpipe1: ZoneSummary,
    pub jpipe2: ZoneSummary,
    pub jrainbow1: RainbowZoneSummary,
    pub jrainbow2: RainbowZoneSummary,
    pub corsair: CorsairZoneSummary,
    pub save_flag: u8,
}

/// The bytes of a zone.
pub open spec fn zone_of(report: Seq<u8>, offset: int, len: int) -> Seq<u8> {
    report.subrange(offset, offset + len)
}

fn zone(report: &[u8; PACKET_LEN], offset: usize, len: usize) -> (zone: Vec<u8>)
    requires
        offset + len <= PACKET_LEN,
    ensures
        zone@ == zone_of(report@, offset as int, len as int),
{
    let mut zone: Vec<u8> = Vec::new();
    let mut i: usize = 0;
    while i < len
        invariant
            i <= len,
            offset + len <= PACKET_LEN,
            zone@ == zone_of(report@, offset as int, i as int),
        decreases len - i,
    {
        zone.push(report[offset + i]);
        i += 1;
        assert(zone@ =~= zone_of(report@, offset as int, i as int));
    }
    zone
}

impl FeatureReportState {
    /// Whether these are the settings in a report.
    pub open spec fn reads(self, bytes: Seq<u8>) -> bool {
        &&& self.report_id == bytes[0]
        &&& self.jpipe1.summarises(zone_of(bytes, 11, 10))
        &&& self.jpipe2.summarises(zone_of(bytes, 21, 10))
        &&& self.jrainbow1.summarises(zone_of(bytes, 31, 11))
        &&& self.jrainbow2.summarises(zone_of(bytes, 42, 11))
        &&& self.corsair.summarises(zone_of(bytes, 53, 11))
        &&& self.onboard.summarises(zone_of(bytes, 74, 10))
        &&& self.sync.raw == bytes[82]
        &&& self.sync.onboard == (bytes[82] % 2 == 1)
        &&& self.sync.jrainbow1 == (bytes[82] / 2 % 2 == 1)
        &&& self.sync.jrainbow2 == (bytes[82] / 4 % 2 == 1)
        &&& self.sync.jcorsair == (bytes[82] / 8 % 2 == 1)
        &&& self.sync.jpipe1 == (bytes[82] / 16 % 2 == 1)
        &&& self.sync.jpipe2 == (bytes[82] / 32 % 2 == 1)
        &&& self.sync.jrgb == (bytes[82] / 128 == 1)
        &&& self.direct_mode_enabled == (bytes[74] == MSI_DIRECT_MODE)
        &&& self.save_flag == bytes[184]
    }

    /// Reads the report.
    pub fn from_report(bytes: &[u8; PACKET_LEN]) -> (state: Self)
        ensures
            state.reads(bytes@),
    {
        let jpipe1 = ZoneSummary::from_zone(&zone(bytes, J_PIPE1_OFFSET, ZONE_LEN));
        let jpipe2 = ZoneSummary::from_zone(&zone(bytes, J_PIPE2_OFFSET, ZONE_LEN));
        let jrainbow1 = RainbowZoneSummary::from_zone(
            &zone(bytes, J_RAINBOW1_OFFSET, RAINBOW_ZONE_LEN),
        );
        let jrainbow2 = RainbowZoneSummary::from_zone(
            &zone(bytes, J_RAINBOW2_OFFSET, RAINBOW_ZONE_LEN),
        );
        let corsair = CorsairZoneSummary::from_zone(
            &zone(bytes, J_CORSAIR_OFFSET, RAINBOW_ZONE_LEN),
        );
        let onboard = ZoneSummary::from_zone(&zone(bytes, ONBOARD_BASE_OFFSET, ZONE_LEN));
        FeatureReportState {
            report_id: bytes[0],
            direct_mode_enabled: onboard.mode.raw == MSI_DIRECT_MODE,
            onboard,
            sync: SyncTargets::from_flags(onboard.color_flags),
            jpipe1,
            jpipe2,
            jrainbow1,
            jrainbow2,
            corsair,
            save_flag: bytes[SAVE_DATA_OFFSET],
        }
    }
}

#[derive(Debug, Clone, Copy, PartialEq, Eq, Structural)]
pub struct PerLedHeader {
    pub report_id: u8,
    pub hdr0: u8,
    pub hdr1: u8,
    pub hdr2: u8,
    pub hdr3: u8,
}

/// What the LEDs show.
#[derive(Debug, Clone, Copy)]
pub struct PerLedReadback {
    pub header: PerLedHeader,
    pub first_led: Pixel,
    pub last_led: Pixel,
    /// The first LED that is not dark, or else the first one.
    pub first_non_zero: Pixel,
    /// The last LED that is not dark, or else the last one.
    pub last_non_zero: Pixel,
    pub non_zero_leds: usize,
}

/// The colour of LED `i`.
pub open spec fn led_of(report: Seq<u8>, i: int) -> Seq<u8> {
    seq![report[5 + 3 * i], report[6 + 3 * i], report[7 + 3 * i]]
}

pub open spec fn is_lit(report: Seq<u8>, i: int) -> bool {
    report[5 + 3 * i] != 0 || report[6 + 3 * i] != 0 || report[7 + 3 * i] != 0
}

/// The number of LEDs before `n` that are not dark.
pub open spec fn lit_before(report: Seq<u8>, n: nat) -> nat
    decreases n,
{
    if n == 0 {
        0
    } else if is_lit(report, n - 1) {
        lit_before(report, (n - 1) as nat) + 1
    } else {
        lit_before(report, (n - 1) as nat)
    }
}

/// The first LED before `n` that is not dark.
pub open spec fn first_lit(report: Seq<u8>, n: nat) -> Option<int>
    decreases n,
{
    if n == 0 {
        None
    } else {
        match first_lit(report, (n - 1) as nat) {
            Some(i) => Some(i),
            None => if is_lit(report, n - 1) {
                Some(n - 1)
            } else {
                None
            },
        }
    }
}

/// The last LED before `n` that is not dark.
pub open spec fn last_lit(report: Seq<u8>, n: nat) -> Option<int>
    decreases n,
{
    if n == 0 {
        None
    } else if is_lit(report, n - 1) {
        Some(n - 1)
    } else {
        last_lit(report, (n - 1) as nat)
    }
}

fn led_at(report: &[u8; PER_LED_PACKET_LEN], i: usize) -> (led: Pixel)
    requires
        i < NUM_PER_LED_MODE_LEDS,
    ensures
        led@ == led_of(report@, i as int),
{
    let led: Pixel = [report[5 + 3 * i], report[6 + 3 * i], report[7 + 3 * i]];
    assert(led@ =~= led_of(report@, i as int));
    led
}

impl PerLedReadback {
    /// Reads the report.
    pub fn from_report(bytes: &[u8; PER_LED_PACKET_LEN]) -> (state: Self)
        ensures
            state.header == (PerLedHeader {
                report_id: bytes@[0],
                hdr0: bytes@[1],
                hdr1: bytes@[2],
                hdr2: bytes@[3],
                hdr3: bytes@[4],
            }),
            state.first_led@ == led_of(bytes@, 0),
            state.last_led@ == led_of(bytes@, 239),
            state.first_non_zero@ == (match first_lit(bytes@, 240) {
                Some(i) => led_of(bytes@, i),
                None => led_of(bytes@, 0),
            }),
            state.last_non_zero@ == (match last_lit(bytes@, 240) {
                Some(i) => led_of(bytes@, i),
                None => led_of(bytes@, 239),
            }),
            state.non_zero_leds == lit_before(bytes@, 240),
    {
        let first_led = led_at(bytes, 0);
        let last_led = led_at(bytes, NUM_PER_LED_MODE_LEDS - 1);
        let mut non_zero_leds: usize = 0;
        let mut first_non_zero: Option<Pixel> = None;
        let mut last_non_zero: Option<Pixel> = None;
        let mut i: usize = 0;
        while i < NUM_PER_LED_MODE_LEDS
            invariant
                i <= NUM_PER_LED_MODE_LEDS,
                non_zero_leds <= i,
                non_zero_leds == lit_before(bytes@, i as nat),
                match (first_non_zero, first_lit(bytes@, i as nat)) {
                    (Some(led), Some(j)) => led@ == led_of(bytes@, j),
                    (None, None) => true,
                    _ => false,
                },
                match (last_non_zero, last_lit(bytes@, i as nat)) {
                    (Some(led), Some(j)) => led@ == led_of(bytes@, j),
                    (None, None) => true,
                    _ => false,
                },
            decreases NUM_PER_LED_MODE_LEDS - i,
        {
            let led = led_at(bytes, i);
            if led[0] != 0 || led[1] != 0 || led[2] != 0 {
                assert(is_lit(bytes@, i as int));
                if first_non_zero.is_none() {
                    first_non_zero = Some(led);
                }
                last_non_zero = Some(led);
                non_zero_leds += 1;
            } else {
                assert(!is_lit(bytes@, i as int));
            }
            i += 1;
        }
        PerLedReadback {
            header: PerLedHeader {
                report_id: bytes[0],
                hdr0: bytes[1],
                hdr1: bytes[2],
                hdr2: bytes[3],
                hdr3: bytes[4],
            },
            first_led,
            last_led,
            first_non_zero: match first_non_zero {
                Some(led) => led,
                None => first_led,
            },
            last_non_zero: match last_non_zero {
                Some(led) => led,
                None => last_led,
            },
            non_zero_leds,
        }
    }
}

/// All LEDs are dark just if none was counted, and just then there is neither a first
/// nor a last one that is lit.
pub proof fn dark_leds_are_not_counted(report: Seq<u8>, n: nat)
    ensures
        lit_before(report, n) <= n,
        lit_before(report, n) == 0 <==> first_lit(report, n) is None,
        lit_before(report, n) == 0 <==> last_lit(report, n) is None,
        lit_before(report, n) == 0 <==> forall|i: int| 0 <= i < n ==> !is_lit(report, i),
    decreases n,
{
    if n > 0 {
        dark_leds_are_not_counted(report, (n - 1) as nat);
        if lit_before(report, n) == 0 {
            assert forall|i: int| 0 <= i < n implies !is_lit(report, i) by {
                if i < n - 1 {
                }
            }
        }
    }
}

/// The first and the last LED that count as lit are lit, and no LED before the one or behind
/// the other is.
pub proof fn lit_leds_are_framed(report: Seq<u8>, n: nat, i: int)
    requires
        0 <= i < n,
        is_lit(report, i),
    ensures
        first_lit(report, n) matches Some(first) && 0 <= first <= i && is_lit(report, first),
        last_lit(report, n) matches Some(last) && i <= last < n && is_lit(report, last),
        lit_before(report, n) > 0,
    decreases n,
{
    if i < n - 1 {
        lit_leds_are_framed(report, (n - 1) as nat, i);
    } else {
        first_is_lit(report, (n - 1) as nat);
    }
}

proof fn first_is_lit(report: Seq<u8>, n: nat)
    ensures
        first_lit(report, n) matches Some(first) ==> 0 <= first < n && is_lit(report, first),
    decreases n,
{
    if n > 0 {
        first_is_lit(report, (n - 1) as nat);
    }
}

/// One more lit LED is counted as one more, and a dark one as none.
pub proof fn each_lit_led_counts_once(report: Seq<u8>, n: nat)
    ensures
        ({
            let at = 5 + 3 * n as int;
            let dark = report[at] == 0 && report[at + 1] == 0 && report[at + 2] == 0;
            &&& dark ==> lit_before(report, n + 1) == lit_before(report, n)
            &&& !dark ==> lit_before(report, n + 1) == lit_before(report, n) + 1
        }),
{
}

/// A controller that was taken over and reports what it was sent says so: the rainbow headers
/// and the onboard LEDs are under direct control, everything else is static, every part of the
/// board is synchronised, and nothing is to be saved.
pub proof fn takeover_is_read_back(state: FeatureReportState)
    requires
        state.reads(Seq::new(185, |i: int| packets::direct_byte(i))),
    ensures
        state.report_id == 0x52,
        state.direct_mode_enabled,
        state.onboard.mode.raw == 0x25 && state.onboard.mode.label@ == "direct"@,
        state.jrainbow1.zone.mode.raw == 0x25 && state.jrainbow1.zone.mode.label@ == "direct"@,
        state.jrainbow2.zone.mode.raw == 0x25 && state.jrainbow2.zone.mode.label@ == "direct"@,
        state.jrainbow1.cycle == 200,
        state.jrainbow2.cycle == 240,
        state.jpipe1.mode.raw == 1 && state.jpipe1.mode.label@ == "static"@,
        state.jpipe2.mode.raw == 1 && state.jpipe2.mode.label@ == "static"@,
        state.corsair.mode.raw == 1 && state.corsair.mode.label@ == "static"@,
        state.sync.onboard && state.sync.jrainbow1 && state.sync.jrainbow2 && state.sync.jcorsair
            && state.sync.jpipe1 && state.sync.jpipe2 && state.sync.jrgb,
        state.save_flag == 0,
{
    packets::takeover_report_takes_over();
    let bytes = Seq::new(185, |i: int| packets::direct_byte(i));
    assert(zone_of(bytes, 11, 10)[0] == bytes[11]);
    assert(zone_of(bytes, 21, 10)[0] == bytes[21]);
    assert(zone_of(bytes, 31, 11)[0] == bytes[31]);
    assert(zone_of(bytes, 31, 11)[10] == bytes[41]);
    assert(zone_of(bytes, 42, 11)[0] == bytes[42]);
    assert(zone_of(bytes, 42, 11)[10] == bytes[52]);
    assert(zone_of(bytes, 53, 11)[0] == bytes[53]);
    assert(zone_of(bytes, 74, 10)[0] == bytes[74]);
}

/// A zone's colours, speed and brightness are read from their places: the brightness stands
/// above the speed in one byte.
pub proof fn zone_is_read_in_order(summary: ZoneSummary, zone: Seq<u8>)
    requires
        zone.len() == 10,
        summary.summarises(zone),
    ensures
        summary.mode.raw == zone[0],
        summary.primary@ == seq![zone[1], zone[2], zone[3]],
        summary.secondary@ == seq![zone[5], zone[6], zone[7]],
        summary.color_flags == zone[8],
        summary.speed < 4,
        summary.brightness < 32,
        summary.speed + 4 * summary.brightness == zone[4] % 128,
{
}

} // verus!
