use hal1210::daemoncomm::LedCommand;
use hal1210::led::effects::{AnimationKind, AnimationState, FadeKind, RainbowState};
use hal1210::led::esp32::{
    is_esp32_usb, resolve_port, Esp32Device, FeedbackListener, FeedbackRead, FeedbackStep,
    PortError, PortInfo, UsbPort,
};
use hal1210::led::hsv::hsv_to_rgb;
use hal1210::led::mystic::Command;
use hal1210::led::progress::progress_of;
use hal1210::led::samples::{next_hue, packet_text, rainbow_frame, two_tone_frame};
use hal1210::led::share::{dim_color, lerp, lerp_frame, scale_channel, Share};
use hal1210::led::strip::{written, StripAction, StripEvent, StripManager, StripReport};
use hal1210::led::{AnimationStep, LedManager};
use hal1210::ledcomm::{zero_state_frame, NUM_LEDS};

const MS: u64 = 1_000_000;
const NOTHING: Share = Share { num: 0, den: 1 };

fn float_hsv(hue: u8, sat: u8, val: u8) -> [u8; 3] {
    if sat == 0 {
        return [val, val, val];
    }
    let h = (hue as f32 / 255.0) * 6.0;
    let s = sat as f32 / 255.0;
    let v = val as f32 / 255.0;
    let sector = h.floor() as i32;
    let fraction = h - sector as f32;
    let p = v * (1.0 - s);
    let q = v * (1.0 - s * fraction);
    let t = v * (1.0 - s * (1.0 - fraction));
    let (r, g, b) = match sector.rem_euclid(6) {
        0 => (v, t, p),
        1 => (q, v, p),
        2 => (p, v, t),
        3 => (p, q, v),
        4 => (t, p, v),
        _ => (v, p, q),
    };
    let channel = |c: f32| (c * 255.0).round().clamp(0.0, 255.0) as u8;
    [channel(r), channel(g), channel(b)]
}

fn float_lerp(start: u8, end: u8, t: f32) -> u8 {
    let s = start as f32;
    let e = end as f32;
    (s + (e - s) * t).round().clamp(0.0, 255.0) as u8
}

#[test]
fn hues_agree_with_floating_point() {
    for hue in 0..=255 {
        for sat in (0..=255).step_by(15) {
            for val in (0..=255).step_by(17) {
                assert_eq!(hsv_to_rgb(hue, sat, val), float_hsv(hue, sat, val));
            }
        }
    }
    assert_eq!(hsv_to_rgb(0, 255, 255), [255, 0, 0]);
    assert_eq!(hsv_to_rgb(85, 255, 255), [0, 255, 0]);
    assert_eq!(hsv_to_rgb(170, 255, 255), [0, 0, 255]);
    assert_eq!(hsv_to_rgb(12, 0, 99), [99, 99, 99]);
}

#[test]
fn shares_agree_with_floating_point() {
    let mut shares = vec![0.0f32, 1.0, 0.5, 0.25, 1e-3, 1e-8, 1e-12, 1e-20, f32::MIN_POSITIVE];
    for i in 1..200 {
        shares.push(i as f32 / 201.0);
        shares.push((i as f32 * 0.37).fract());
    }
    for t in shares {
        let share = Share::from_bits(t.to_bits()).unwrap();
        for start in (0..=255).step_by(5) {
            for end in [0u8, 1, 2, 7, 100, 128, 200, 254, 255] {
                assert_eq!(lerp(start, end, share), float_lerp(start, end, t), "{start} {end} {t}");
            }
            let scaled = (start as f32 * t).round().clamp(0.0, 255.0) as u8;
            assert_eq!(scale_channel(start, share), scaled, "{start} {t}");
        }
    }
    assert_eq!(Share::from_bits(1.0000001f32.to_bits()), None);
    assert_eq!(Share::from_bits((-0.5f32).to_bits()), None);
    assert_eq!(Share::from_bits(f32::NAN.to_bits()), None);
    assert_eq!(Share::from_bits(0.75f32.to_bits()), Some(Share { num: 0xc0_0000, den: 0x100_0000 }));
}

#[test]
fn way_starts_and_ends_where_it_should() {
    let (none, all) = (Share { num: 0, den: 1 }, Share { num: 1, den: 1 });
    let half = Share { num: 1, den: 2 };
    assert_eq!((lerp(10, 200, none), lerp(10, 200, all)), (10, 200));
    assert_eq!((lerp(200, 10, none), lerp(200, 10, all)), (200, 10));
    assert_eq!(lerp(0, 255, half), 128);
    assert_eq!(dim_color([255, 100, 0], half), [128, 50, 0]);
    let mut target = zero_state_frame();
    target[3] = [10, 20, 30];
    let frame = lerp_frame(&zero_state_frame(), &target, half);
    assert_eq!(frame[3], [5, 10, 15]);
    assert_eq!(frame[4], [0, 0, 0]);
}

#[test]
fn progress_is_that_of_floats() {
    let times = [
        1u64, 2, 999, 16_000_000, 16_777_217, 123_456_789, 749_999_999, 750_000_000, 999_999_967,
        999_999_968, 999_999_999, 1_000_000_000, 1_000_000_001, 1_499_999_999, 1_500_000_000,
        2_999_999_999, 3_000_000_000, 86_400_000_000_001, 16_777_218_999_999_999,
        16_777_219_000_000_000, 18_446_744_073_709_551_615,
    ];
    for duration in times {
        for elapsed in times.iter().copied().chain((0..40).map(|i| duration / 40 * i)) {
            let part = std::time::Duration::from_nanos(elapsed).as_secs_f32();
            let total = std::time::Duration::from_nanos(duration).as_secs_f32();
            let expected = (part / total).clamp(0.0, 1.0);
            let share = progress_of(elapsed, duration as u128);
            let value = share.num as f64 / share.den as f64;
            let tiny = 1.0 / 4_294_967_296.0;
            if (expected as f64) < tiny {
                assert_eq!(share.num, 0, "{elapsed} of {duration}");
            } else {
                assert_eq!(value, expected as f64, "{elapsed} of {duration}");
            }
        }
    }
    let longest = u64::MAX as u128 * 1_000_000;
    let part = std::time::Duration::from_nanos(u64::MAX).as_secs_f32();
    let total = std::time::Duration::from_millis(u64::MAX).as_secs_f32();
    let share = progress_of(u64::MAX, longest);
    assert_eq!(share.num as f64 / share.den as f64, (part / total) as f64);
    assert_eq!(progress_of(0, 1), NOTHING);
    assert_eq!(progress_of(1, 1), Share { num: 1, den: 1 });
}

#[test]
fn static_colour_is_sent_at_once() {
    let mut manager = LedManager::new();
    assert!(manager.is_black());
    assert!(manager.handle_led_command(LedCommand::SetStaticColor([1, 2, 3]), 0));
    assert_eq!(manager.current_frame, [[1, 2, 3]; NUM_LEDS]);
    assert_eq!(manager.next_deadline(), None);
    assert!(!manager.is_black());
}

#[test]
fn rainbow_moves_along() {
    let mut manager = LedManager::new();
    assert!(!manager.handle_led_command(LedCommand::Rainbow, 5 * MS));
    assert_eq!(manager.next_deadline(), Some(5 * MS as u128));
    assert_eq!(manager.breath(), None);
    assert_eq!(manager.step_animation(NOTHING, 5 * MS), AnimationStep::Drawn);
    let first = manager.current_frame;
    assert_eq!(first[0], hsv_to_rgb(0, 255, 255));
    assert_eq!(first[257], hsv_to_rgb(1, 255, 255));
    assert_eq!(manager.next_deadline(), Some(13 * MS as u128));
    manager.step_animation(NOTHING, 13 * MS);
    assert_eq!(manager.current_frame[0], first[1]);
    let mut state = RainbowState { hue: 255 };
    let mut frame = zero_state_frame();
    state.render(&mut frame);
    assert_eq!(state.hue, 0);
}

#[test]
fn breath_is_drawn_at_its_brightness() {
    let mut manager = LedManager::new();
    manager.handle_led_command(LedCommand::Breathing([200, 100, 50]), 0);
    assert_eq!(manager.breath(), Some(true));
    assert_eq!(manager.step_animation(Share { num: 1, den: 2 }, 0), AnimationStep::Drawn);
    assert_eq!(manager.current_frame[299], [100, 50, 25]);
    assert_eq!(manager.next_deadline(), Some(16 * MS as u128));
    assert_eq!(manager.breath(), Some(false));
}

#[test]
fn fade_out_ends_dark() {
    let mut manager = LedManager::new();
    manager.handle_led_command(LedCommand::SetStaticColor([100, 0, 0]), 0);
    assert!(!manager.handle_led_command(LedCommand::FadeOut { duration_ms: None }, 10 * MS));
    assert_eq!(manager.step_animation(NOTHING, 10 * MS), AnimationStep::Drawn);
    assert_eq!(manager.current_frame[0], [100, 0, 0]);
    assert_eq!(manager.step_animation(NOTHING, 1_510 * MS), AnimationStep::Drawn);
    assert_eq!(manager.current_frame[0], [50, 0, 0]);
    assert_eq!(manager.next_deadline(), Some(1_526 * MS as u128));
    assert_eq!(manager.step_animation(NOTHING, 3_010 * MS), AnimationStep::DrawnLast);
    assert!(manager.is_black());
    manager.frame_sent(true, true);
    assert_eq!(manager.next_deadline(), None);
}

#[test]
fn dark_strip_does_not_fade_out() {
    let mut manager = LedManager::new();
    manager.handle_led_command(LedCommand::FadeOut { duration_ms: Some(5) }, 0);
    assert_eq!(manager.step_animation(NOTHING, 0), AnimationStep::Idle);
}

#[test]
fn frames_retarget_a_fade_in() {
    let mut manager = LedManager::new();
    let mut first = zero_state_frame();
    first[0] = [100, 100, 100];
    manager.handle_led_command(LedCommand::FadeIn { state: first, duration_ms: None }, 0);
    let mut second = zero_state_frame();
    second[1] = [9, 9, 9];
    assert!(!manager.handle_led_command(LedCommand::SetStripState(second), 500 * MS));
    match manager.animation {
        Some(AnimationState { kind: AnimationKind::Fade(fade), .. }) => {
            assert_eq!(fade.duration, 1_000 * MS as u128);
            assert_eq!(fade.target, second);
            assert_eq!(fade.kind, FadeKind::In);
        }
        other => panic!("{other:?}"),
    }
    assert!(manager.handle_led_command(LedCommand::SetStaticColor([1, 1, 1]), 0));
    assert!(manager.handle_led_command(LedCommand::SetStripState(second), 0));
    assert_eq!(manager.current_frame, second);
}

#[test]
fn fade_without_time_is_over() {
    let mut manager = LedManager::new();
    let mut state = zero_state_frame();
    state[7] = [1, 2, 3];
    manager.handle_led_command(LedCommand::FadeIn { state, duration_ms: Some(0) }, 0);
    assert_eq!(manager.step_animation(NOTHING, 0), AnimationStep::DrawnLast);
    assert_eq!(manager.current_frame, state);
    manager.frame_sent(false, false);
    assert!(manager.animation.is_none());
}

#[test]
fn strip_packets_carry_the_frame() {
    let mut device = Esp32Device::new();
    let packet = device.send_static_color([1, 2, 3]);
    assert_eq!(packet.len(), 906);
    assert_eq!(&packet[..9], &[0x4c, 0x45, 0x44, 0x53, 0x84, 0x03, 1, 2, 3]);
    let mut state = zero_state_frame();
    state[299] = [7, 8, 9];
    assert_eq!(&device.send_strip_state(&state)[903..], &[7, 8, 9]);
    assert!(device.close()[6..].iter().all(|&b| b == 0));
}

#[test]
fn strip_manager_answers_commands() {
    let mut manager = StripManager::new();
    match manager.step(StripEvent::Command(Command::SetStaticColor([4, 5, 6]))) {
        StripAction::Write(packet) => assert_eq!(&packet[6..9], &[4, 5, 6]),
        other => panic!("{other:?}"),
    }
    let mut state = zero_state_frame();
    state[0] = [1, 1, 1];
    assert_eq!(&manager.handle_command(Command::SetStripState(state))[6..10], &[1, 1, 1, 0]);
    assert!(matches!(manager.step(StripEvent::ChannelClosed), StripAction::Exit));
    assert!(matches!(manager.step(StripEvent::Cancelled), StripAction::Exit));
    assert!(manager.close()[6..].iter().all(|&b| b == 0));
    assert_eq!(written(true), StripReport::Done);
    assert_eq!(written(false), StripReport::Error);
}

fn port(name: &str, usb: Option<(u16, Option<&str>)>) -> PortInfo {
    PortInfo {
        port_name: name.to_string(),
        usb: usb.map(|(vid, product)| UsbPort { vid, product: product.map(str::to_string) }),
    }
}

#[test]
fn port_is_named_or_found() {
    let ports = vec![
        port("/dev/ttyS0", None),
        port("/dev/ttyUSB0", Some((1, Some("printer")))),
        port("/dev/ttyUSB1", Some((2, Some("an esp32 board")))),
    ];
    assert_eq!(resolve_port(Some("/dev/x".to_string()), &ports).unwrap(), "/dev/x");
    assert_eq!(resolve_port(None, &ports).unwrap(), "/dev/ttyUSB1");
    assert!(matches!(resolve_port(None, &vec![port("/dev/ttyS0", None)]), Err(PortError::NotFound)));
    assert!(is_esp32_usb(&UsbPort { vid: 0x303a, product: None }));
    assert!(!is_esp32_usb(&UsbPort { vid: 1, product: None }));
}

#[test]
fn feedback_backlog_is_read_and_cut() {
    let mut listener = FeedbackListener::new();
    assert!(matches!(listener.on_read(FeedbackRead::Interrupted), FeedbackStep::Read));
    assert!(matches!(listener.on_read(FeedbackRead::Bytes(vec![1, 2, 3])), FeedbackStep::Parse));
    assert_eq!(listener.pending(), &[1, 2, 3]);
    listener.on_parsed(Some(2), 10);
    assert_eq!(listener.pending(), &[3]);
    listener.on_read(FeedbackRead::Bytes(vec![9; 100]));
    listener.on_parsed(None, 10);
    assert!(listener.pending().len() <= 40);
    assert!(matches!(listener.on_read(FeedbackRead::Cancelled), FeedbackStep::Stop));
    assert!(matches!(listener.on_reported(false), FeedbackStep::Stop));
}

#[test]
fn sample_frames_for_trying_out() {
    let frame = rainbow_frame(250);
    assert_eq!(frame.len, 900);
    assert_eq!(frame.data[0], hsv_to_rgb(250, 255, 255));
    assert_eq!(frame.data[1], hsv_to_rgb(4, 255, 255));
    assert_eq!(rainbow_frame(next_hue(250)).data[7], frame.data[8]);
    let two = two_tone_frame();
    assert_eq!((two.data[6], two.data[7]), ([0, 0, 255], [255, 255, 0]));
    assert_eq!(packet_text(&two.packet()[..8]), "4C45445384030000");
}
