use hal1210::led::mystic::hid::{
    hex_dump, hid_ioc, hid_iocgfeature, hid_iocsfeature, is_controller, parse_devname,
};
use hal1210::led::mystic::packets::{DirectModePacket, PerLedPacket, SyncPacket};
use hal1210::led::mystic::readback::{
    CorsairZoneSummary, FeatureReportState, ModeDesc, PerLedReadback, SyncTargets, ZoneSummary,
};
use hal1210::led::mystic::{Command, MysticDevice, MysticError};
use hal1210::ledcomm::zero_state_frame;

#[test]
fn direct_mode_report_is_laid_out() {
    let bytes = DirectModePacket::new_unsynced().as_bytes();
    assert_eq!(bytes.len(), 185);
    assert_eq!(&bytes[..11], &[0x52, 1, 0, 0, 0, 0x08, 0, 0, 0, 0x80, 0]);
    assert_eq!(&bytes[31..42], &[0x25, 0, 0, 0, 0x29, 0, 0, 0, 0x80, 0, 200]);
    assert_eq!(&bytes[42..53], &[0x25, 0, 0, 0, 0x29, 0, 0, 0, 0x80, 0, 240]);
    assert_eq!(&bytes[74..84], &[0x25, 0, 0, 0, 0xa9, 0, 0, 0, 0xbf, 0]);
    assert_eq!(&bytes[164..174], &[1, 0, 0, 0, 0x28, 0, 0, 0, 0x80, 0]);
    assert_eq!(&bytes[174..185], &[1, 0, 0, 0, 0x2a, 0, 0, 0, 0x80, 0, 0]);
}

#[test]
fn direct_mode_report_is_read_back() {
    let bytes: [u8; 185] = DirectModePacket::new_unsynced().as_bytes().try_into().unwrap();
    let state = FeatureReportState::from_report(&bytes);
    assert_eq!(state.report_id, 0x52);
    assert!(state.direct_mode_enabled);
    assert_eq!(state.onboard.mode.label, "direct");
    assert_eq!(state.jpipe1.mode.label, "static");
    assert_eq!((state.jpipe1.speed, state.jpipe1.brightness), (2, 10));
    assert_eq!((state.jrainbow1.cycle, state.jrainbow2.cycle), (200, 240));
    let sync = state.sync;
    assert_eq!(sync.raw, 0xbf);
    assert!(sync.onboard && sync.jrainbow1 && sync.jrainbow2 && sync.jcorsair);
    assert!(sync.jpipe1 && sync.jpipe2 && sync.jrgb);
    assert_eq!(state.save_flag, 0);
    assert_eq!(state.corsair.fan_flags, 0x29);
}

#[test]
fn flags_and_modes_are_named() {
    let sync = SyncTargets::from_flags(0x12);
    assert!(!sync.onboard && sync.jrainbow1 && sync.jpipe1 && !sync.jrgb && !sync.jpipe2);
    assert_eq!(ModeDesc::new(0).label, "disabled");
    assert_eq!(ModeDesc::new(1).label, "static");
    assert_eq!(ModeDesc::new(0x25).label, "direct");
    assert_eq!(ModeDesc::new(7).label, "unknown");
}

#[test]
fn short_zones_read_as_zero() {
    let zone = ZoneSummary::from_zone(&[1, 10, 20, 30, 0xff, 40]);
    assert_eq!((zone.speed, zone.brightness), (3, 31));
    assert_eq!((zone.primary, zone.secondary), ([10, 20, 30], [40, 0, 0]));
    assert_eq!(zone.color_flags, 0);
    let corsair = CorsairZoneSummary::from_zone(&[0, 1, 2, 3, 4, 5, 0, 0, 0, 0, 1]);
    assert_eq!((corsair.color, corsair.fan_flags, corsair.quantity), ([1, 2, 3], 4, 5));
    assert!(corsair.individual);
}

#[test]
fn lit_leds_are_counted() {
    let mut report = [0u8; 725];
    report[0] = 0x53;
    let dark = PerLedReadback::from_report(&report);
    assert_eq!(dark.non_zero_leds, 0);
    assert_eq!(dark.first_non_zero, [0, 0, 0]);
    report[5 + 3 * 10 + 1] = 7;
    report[5 + 3 * 200] = 9;
    let state = PerLedReadback::from_report(&report);
    assert_eq!(state.header.report_id, 0x53);
    assert_eq!(state.non_zero_leds, 2);
    assert_eq!(state.first_non_zero, [0, 7, 0]);
    assert_eq!(state.last_non_zero, [9, 0, 0]);
    assert_eq!(state.last_led, [0, 0, 0]);
}

#[test]
fn headers_have_their_leds() {
    let mut jr1 = PerLedPacket::jr1();
    assert!(jr1.has_content());
    jr1.fill_constant([1, 2, 3]);
    let bytes = jr1.as_bytes();
    assert_eq!(&bytes[..8], &[0x53, 0x25, 4, 0, 0, 1, 2, 3]);
    assert_eq!(&bytes[5 + 159 * 3..5 + 161 * 3], &[1, 2, 3, 0, 0, 0]);
    jr1.fill_from_slice(&[[9, 9, 9]; 2]);
    assert_eq!(&jr1.as_bytes()[5..14], &[9, 9, 9, 9, 9, 9, 0, 0, 0]);
    jr1.clear();
    assert!(jr1.as_bytes()[5..].iter().all(|&b| b == 0));
    let jr2 = PerLedPacket::jr2();
    assert!(!jr2.has_content());
    assert_eq!(&jr2.as_bytes()[..5], &[0x53, 0x25, 4, 1, 0]);
    let mut sync = SyncPacket::new();
    sync.set_led(240, [1, 1, 1]);
    sync.set_led(239, [5, 5, 5]);
    assert_eq!(&sync.as_bytes()[722..], &[5, 5, 5]);
    sync.clear_tail();
    assert!(sync.as_bytes()[5..].iter().all(|&b| b == 0));
    sync.fill_constant_range(238, 10, [7, 7, 7]);
    assert_eq!(&sync.as_bytes()[5 + 237 * 3..], &[0, 0, 0, 7, 7, 7, 7, 7, 7]);
    sync.fill_range_from_slice(239, 5, &[[1, 2, 3], [4, 5, 6]]);
    assert_eq!(&sync.as_bytes()[5 + 238 * 3..], &[7, 7, 7, 1, 2, 3]);
    sync.fill_range_from_slice(1_000, 3, &[[9, 9, 9]]);
    assert_eq!(&sync.as_bytes()[5 + 238 * 3..], &[7, 7, 7, 1, 2, 3]);
    assert_eq!(sync.as_bytes().len(), 725);
}

#[test]
fn controller_is_set_up_dark() {
    let mut device = MysticDevice::new();
    let reports = device.initialize();
    assert_eq!(reports.len(), 3);
    assert_eq!(reports[0], DirectModePacket::new_unsynced().as_bytes());
    assert_eq!(&reports[1][..3], &[0x53, 0x25, 4]);
    assert_eq!(&reports[2][..3], &[0x53, 0x25, 6]);
    assert!(reports[1][5..].iter().chain(&reports[2][5..]).all(|&b| b == 0));
}

#[test]
fn strip_is_spread_over_the_board() {
    let mut device = MysticDevice::new();
    let mut state = zero_state_frame();
    for i in 0..300 {
        state[i] = [i as u8, 1, 2];
    }
    let reports = device.handle_command(Command::SetStripState(state));
    assert_eq!(reports.len(), 2);
    assert_eq!(&reports[0][5 + 159 * 3..5 + 161 * 3], &[159, 1, 2, 0, 0, 0]);
    let sync = &reports[1][5..];
    assert_eq!(&sync[..9], &[0, 1, 2, 0, 1, 2, 0, 1, 2]);
    assert_eq!(sync[3 * (2 + 79)], 79);
    assert_eq!(&sync[3 * 82..3 * 83], &[0, 0, 0]);
    let one = device.handle_command(Command::SetStaticColor([3, 3, 3]));
    let same = device.handle_command(Command::SetStripState([[3, 3, 3]; 300]));
    assert_eq!(one, same);
}

#[test]
fn requests_hold_direction_type_number_and_size() {
    assert_eq!(hid_iocsfeature(185), 0xc0b9_4806);
    assert_eq!(hid_iocgfeature(725), 0xc2d5_4807);
    assert_eq!(hid_ioc(1, 2, 3, 4), 0x4004_0203);
    assert!(is_controller(0x1462, 0x7d77));
    assert!(!is_controller(0x1462, 0x7d78));
}

#[test]
fn dump_is_upper_case_and_short() {
    assert_eq!(hex_dump(&[0, 0xab, 0x0f]), "00AB0F");
    assert_eq!(hex_dump(&[]), "");
    assert_eq!(hex_dump(&[1; 100]).len(), 128);
}

fn devname(text: &str) -> Option<&str> {
    parse_devname(text.as_bytes()).map(|(start, end)| &text[start..end])
}

#[test]
fn device_name_is_found_among_properties() {
    assert_eq!(devname("MAJOR=1\nDEVNAME=hidraw3\nX=y\n"), Some("hidraw3"));
    assert_eq!(devname("DEVNAME=a=b"), Some("a=b"));
    assert_eq!(devname("DEVNAME=first\r\nDEVNAME=second"), Some("first"));
    assert_eq!(devname("DEVNAME=last\r"), Some("last\r"));
    assert_eq!(devname("DEVNAMEX=a\nXDEVNAME=b\nDEVNAME\n"), None);
    assert_eq!(devname(""), None);
    assert_eq!(devname("\n\nDEVNAME=\n"), Some(""));
}

#[test]
fn controller_errors_have_texts() {
    assert_eq!(MysticError::DeviceNotFound.message(""), "MSI Mystic 7D77 device not found");
    assert_eq!(MysticError::Hid.message("x"), "HID backend error: x");
    assert_eq!(MysticError::Io.message("x"), "I/O error: x");
    assert_eq!(MysticError::Join.message("x"), "task join error: x");
    assert_eq!(MysticError::Poisoned.message("x"), "mutex poisoned");
}
