use hal1210::espled::deframer::{Deframer, Extracted};
use hal1210::espled::led::{
    align4, align_to_word, emulator_next_hue, rainbow_frame, rainbow_hue, rainbow_next_hue,
    LedDriver, SK9822_FRAME_ALIGNED_BYTES, SK9822_FRAME_BYTES, SPI_DMA_TRANSFER_BYTES,
};
use hal1210::espled::receiver::{
    pixels_from_payload, FrameLoop, ReceivedFrame, Step, WriteFeedback,
};
use hal1210::espled::usb::StdinForwarder;
use hal1210::led::esp32::Esp32Device;
use hal1210::ledcomm::{zero_state_frame, Frame, Pixel, FRAME_LEN, NUM_LEDS};

fn packet(pixels: &[Pixel]) -> Vec<u8> {
    Frame::from_pixels(pixels).unwrap().packet()
}

fn dispatched(step: Step) -> ReceivedFrame {
    match step {
        Step::Dispatch(frame) => frame,
        Step::Wait => panic!("still waiting"),
        Step::TooLarge(size) => panic!("too large: {size}"),
    }
}

#[test]
fn packet_is_taken_from_stream() {
    let mut deframer = Deframer::new();
    deframer.extend(&[1, 2, 3]);
    deframer.extend(&packet(&[[1, 2, 3], [4, 5, 6]]));
    deframer.extend(b"LED");
    match deframer.next() {
        Extracted::Complete(payload) => assert_eq!(payload, vec![1, 2, 3, 4, 5, 6]),
        _ => panic!("no frame"),
    }
    assert!(matches!(deframer.next(), Extracted::Pending));
    assert_eq!(deframer.have(), 3);
}

#[test]
fn packet_may_come_in_pieces() {
    let whole = packet(&[[9, 8, 7]]);
    for cut in 0..whole.len() {
        let mut deframer = Deframer::new();
        deframer.extend(&whole[..cut]);
        assert!(matches!(deframer.next(), Extracted::Pending));
        deframer.extend(&whole[cut..]);
        match deframer.next() {
            Extracted::Complete(payload) => assert_eq!(payload, vec![9, 8, 7]),
            _ => panic!("no frame after a cut at {cut}"),
        }
        assert_eq!(deframer.have(), 0);
    }
}

#[test]
fn oversized_frame_drops_everything() {
    let mut deframer = Deframer::new();
    deframer.extend(b"LEDS");
    deframer.extend(&901u16.to_le_bytes());
    deframer.extend(&[0; 20]);
    match deframer.next() {
        Extracted::Oversized(size) => assert_eq!(size, 907),
        _ => panic!("not refused"),
    }
    assert_eq!(deframer.have(), 0);
}

#[test]
fn declared_length_is_little_endian() {
    let mut deframer = Deframer::new();
    deframer.extend(b"LEDS");
    deframer.extend(&[0x01, 0x02]);
    assert_eq!(deframer.declared(), 0x0201);
}

#[test]
fn loop_measures_from_the_header() {
    let mut frames = FrameLoop::new(0);
    assert_eq!(frames.room(), FRAME_LEN);
    let bytes = packet(&[[1, 1, 1], [2, 2, 2]]);
    frames.ingest(&bytes[..8]);
    assert!(matches!(frames.step(1_000), Step::Wait));
    assert_eq!(frames.room(), FRAME_LEN - 8);
    frames.ingest(&bytes[8..]);
    let frame = dispatched(frames.step(1_250));
    assert_eq!(frame.rx_elapsed_us, 250);
    assert_eq!(frame.frame_size, 12);
    assert_eq!(frame.pixels[0], [1, 1, 1]);
    assert_eq!(frame.pixels[1], [2, 2, 2]);
    assert_eq!(frame.pixels[2], [0, 0, 0]);
    assert!(matches!(frames.step(1_300), Step::Wait));
}

#[test]
fn incomplete_pixels_are_left_out() {
    let mut frames = FrameLoop::new(0);
    frames.ingest(b"LEDS");
    frames.ingest(&[5, 0, 1, 2, 3, 4, 5]);
    let frame = dispatched(frames.step(10));
    assert_eq!(frame.frame_size, 11);
    assert_eq!(frame.pixels[0], [1, 2, 3]);
    assert_eq!(frame.pixels[1], [0, 0, 0]);
}

#[test]
fn loop_refuses_frames_beyond_the_strip() {
    let mut frames = FrameLoop::new(0);
    frames.ingest(b"LEDS");
    frames.ingest(&[0xff, 0xff]);
    match frames.step(5) {
        Step::TooLarge(size) => assert_eq!(size, 65_541),
        _ => panic!("not refused"),
    }
    assert_eq!(frames.room(), FRAME_LEN);
}

#[test]
fn full_buffer_makes_room() {
    let mut frames = FrameLoop::new(0);
    frames.ingest(&[0; FRAME_LEN]);
    assert_eq!(frames.room(), FRAME_LEN);
    frames.ingest(&packet(&[[3, 2, 1]]));
    assert_eq!(dispatched(frames.step(1)).pixels[0], [3, 2, 1]);
}

#[test]
fn feedback_adds_up_and_saturates() {
    let frame = ReceivedFrame {
        pixels: zero_state_frame(),
        frame_size: 42,
        rx_elapsed_us: 100,
    };
    let feedback = WriteFeedback::new(&frame, 20, 3);
    assert_eq!(
        feedback,
        WriteFeedback { ingest_us: 100, copy_us: 20, spi_us: 3, total_us: 123, frame_size: 42 }
    );
    assert_eq!(WriteFeedback::new(&frame, u32::MAX, 3).total_us, u32::MAX);
}

#[test]
fn payload_fills_the_front_of_the_strip() {
    let pixels = pixels_from_payload(&[7, 8, 9]);
    assert_eq!(pixels[0], [7, 8, 9]);
    assert!(pixels[1..].iter().all(|pixel| *pixel == [0, 0, 0]));
}

#[test]
fn forwarder_returns_every_frame_of_a_read() {
    let mut forwarder = StdinForwarder::new();
    assert_eq!(forwarder.space(), FRAME_LEN);
    let mut bytes = packet(&[[1, 2, 3]]);
    bytes.extend(packet(&[[4, 5, 6]]));
    bytes.extend(b"LEDS");
    let frames = forwarder.on_read(bytes.len() as i32, &bytes);
    assert_eq!(frames.len(), 2);
    assert_eq!(frames[0][0], [1, 2, 3]);
    assert_eq!(frames[1][0], [4, 5, 6]);
    assert_eq!(forwarder.space(), FRAME_LEN - 4);
    assert!(forwarder.on_read(0, &[]).is_empty());
    assert_eq!(forwarder.space(), FRAME_LEN - 4);
    assert!(forwarder.on_read(-1, &[]).is_empty());
    assert_eq!(forwarder.space(), FRAME_LEN);
}

#[test]
fn packets_are_forwarded_however_they_are_cut() {
    let payloads: [&[Pixel]; 4] = [&[[1, 2, 3]], &[], &[[7, 8, 9], [4, 5, 6]], &[[76, 69, 68]; 300]];
    let garbage: [&[u8]; 4] = [b"LEDLE", b"", b"xxLED", b"S"];
    let mut stream = Vec::new();
    for (garbage, pixels) in garbage.iter().zip(payloads) {
        stream.extend_from_slice(garbage);
        stream.extend(packet(pixels));
    }
    stream.extend(b"LL");
    stream.extend(&packet(&[[1, 1, 1]])[..8]);
    for size in [1usize, 2, 5, 6, 7, 100, 906] {
        let mut forwarder = StdinForwarder::new();
        let mut frames = Vec::new();
        for read in stream.chunks(size) {
            frames.extend(forwarder.on_read(read.len() as i32, read));
        }
        assert_eq!(frames.len(), 4, "reads of {size}");
        for (frame, pixels) in frames.iter().zip(payloads) {
            assert_eq!(&frame[..pixels.len()], pixels);
            assert!(frame[pixels.len()..].iter().all(|pixel| *pixel == [0; 3]));
        }
    }
}

#[test]
fn strip_bytes_have_start_leds_and_end() {
    let mut driver = LedDriver::new();
    let bytes = driver.write_pixels(&[[1, 2, 3], [4, 5, 6]]);
    assert_eq!(bytes.len(), 4 + 8 + 23);
    assert_eq!(&bytes[..12], &[0, 0, 0, 0, 0xff, 3, 2, 1, 0xff, 6, 5, 4]);
    assert!(bytes[12..].iter().all(|byte| *byte == 0));
    assert_eq!(&driver.frame[..bytes.len()], &bytes[..]);
}

#[test]
fn strip_takes_at_most_its_leds() {
    let mut driver = LedDriver::new();
    let bytes = driver.write_pixels(&[[1, 1, 1]; 310]);
    assert_eq!(bytes.len(), SK9822_FRAME_BYTES);
    let shorter = driver.write_pixels(&[]);
    assert_eq!(shorter.len(), 27);
    assert!(driver.frame.iter().all(|byte| *byte == 0));
}

#[test]
fn transfers_are_whole_words() {
    assert_eq!(align4(0), 0);
    assert_eq!(align4(1), 4);
    assert_eq!(align_to_word(8), 8);
    assert_eq!(align_to_word(SK9822_FRAME_BYTES), SK9822_FRAME_ALIGNED_BYTES);
    assert_eq!(SPI_DMA_TRANSFER_BYTES % 4, 0);
}

#[test]
fn rainbow_takes_its_colours_from_the_hue_circle() {
    let frame = rainbow_frame(250);
    for i in 0..NUM_LEDS {
        let hue = ((250 + 10 * i) % 256) as u8;
        assert_eq!(rainbow_hue(250, i), hue);
        let rgb = smart_leds::hsv::hsv2rgb(smart_leds::hsv::Hsv { hue, sat: 255, val: 255 });
        assert_eq!(frame[i], [rgb.r, rgb.g, rgb.b]);
    }
    assert_eq!(rainbow_frame(0)[0], [255, 0, 0]);
    assert_eq!(rainbow_frame(0)[1], [255, 60, 0]);
    assert_eq!(rainbow_frame(50)[0], [210, 255, 0]);
    assert_eq!(rainbow_frame(100)[0], [0, 255, 90]);
    assert_eq!(rainbow_frame(150)[0], [0, 120, 255]);
    assert_eq!(rainbow_frame(200)[0], [180, 0, 255]);
    assert_eq!(rainbow_frame(240)[0], [255, 0, 90]);
    assert_eq!(rainbow_frame(255)[0], [255, 0, 0]);
    assert_eq!(rainbow_frame(rainbow_next_hue(7))[..299], rainbow_frame(7)[1..]);
    assert_eq!(emulator_next_hue(254), 1);
    assert_eq!(rainbow_next_hue(250), 4);
}

#[test]
fn sent_state_reaches_the_strip() {
    let mut state = zero_state_frame();
    for (i, pixel) in state.iter_mut().enumerate() {
        *pixel = [i as u8, (i / 2) as u8, 255 - i as u8];
    }
    let mut frames = FrameLoop::new(0);
    frames.ingest(&Esp32Device::new().send_strip_state(&state));
    assert_eq!(dispatched(frames.step(7)).pixels, state);
    assert_eq!(frames.room(), FRAME_LEN);
}
