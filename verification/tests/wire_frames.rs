use hal1210::ledcomm::{
    clamp_payload_len, state_frame_as_bytes, state_frame_as_bytes_mut, zero_state_frame, Frame,
    FrameError, FRAME_LEN, HEADER_LEN, MAGIC, NUM_LEDS, STATE_BYTES,
};

#[test]
fn fresh_frame_is_dark() {
    let frame = Frame::default();
    assert!(frame.pixels().is_empty());
    let frame = Frame::new(MAGIC, 900);
    assert_eq!(frame.magic, *b"LEDS");
    assert_eq!(frame.pixel_count(), NUM_LEDS);
    assert!(frame.payload_bytes().iter().all(|&b| b == 0));
    assert!(frame.is_magic_valid());
    assert!(!Frame::new([0, 0, 0, 0], 0).is_magic_valid());
}

#[test]
fn frame_is_laid_out_as_magic_length_and_pixels() {
    let frame = Frame::from_pixels(&[[1, 2, 3], [4, 5, 6]]).unwrap();
    assert_eq!(frame.len, 6);
    assert_eq!(frame.packet(), vec![0x4c, 0x45, 0x44, 0x53, 6, 0, 1, 2, 3, 4, 5, 6]);
    assert_eq!(frame.as_bytes().len(), FRAME_LEN);
    let full = Frame::new(MAGIC, 900);
    let bytes = full.as_bytes();
    assert_eq!(&bytes[..HEADER_LEN], &[0x4c, 0x45, 0x44, 0x53, 0x84, 0x03]);
}

#[test]
fn written_pixels_are_read_back() {
    let mut frame = Frame::default();
    let pixels = [[9, 8, 7], [6, 5, 4], [3, 2, 1]];
    frame.write_pixels(&pixels).unwrap();
    assert_eq!(frame.pixels(), &pixels);
    assert_eq!(frame.payload_bytes(), &[9, 8, 7, 6, 5, 4, 3, 2, 1]);
    frame.pixels_mut()[1] = [0, 255, 0];
    assert_eq!(frame.payload_bytes(), &[9, 8, 7, 0, 255, 0, 3, 2, 1]);
    frame.payload_bytes_mut()[0] = 77;
    assert_eq!(frame.pixels()[0], [77, 8, 7]);
}

#[test]
fn shorter_write_clears_the_rest() {
    let mut frame = Frame::from_pixels(&[[1, 1, 1]; 10]).unwrap();
    frame.write_pixels(&[[2, 2, 2]]).unwrap();
    assert_eq!(frame.pixel_count(), 1);
    assert_eq!(frame.data[0], [2, 2, 2]);
    assert_eq!(frame.data[1], [0, 0, 0]);
}

#[test]
fn too_many_pixels_are_refused() {
    let mut frame = Frame::default();
    let before = frame.as_bytes();
    assert_eq!(frame.write_pixels(&[[1, 2, 3]; 301]), Err(FrameError::PayloadTooLarge));
    assert_eq!(frame.as_bytes(), before);
    assert!(frame.write_pixels(&[[1, 2, 3]; 300]).is_ok());
    assert_eq!(frame.len, 900);
    assert_eq!(
        FrameError::PayloadTooLarge.message(),
        "frame payload exceeds maximum capacity"
    );
}

#[test]
fn pixels_one_by_one_fill_a_frame() {
    let mut frame = Frame::default();
    frame.write_pixels_iter(vec![[5, 6, 7], [8, 9, 10]]).unwrap();
    assert_eq!(frame.pixels(), &[[5, 6, 7], [8, 9, 10]]);
    assert_eq!(
        frame.write_pixels_iter(vec![[1, 1, 1]; 301]),
        Err(FrameError::PayloadTooLarge)
    );
}

#[test]
fn payload_bytes_make_pixels() {
    let frame = Frame::from_payload_bytes(&[1, 2, 3, 4, 5, 6]).unwrap();
    assert_eq!(frame.pixels(), &[[1, 2, 3], [4, 5, 6]]);
    assert_eq!(
        Frame::from_payload_bytes(&[1, 2]).err(),
        Some(FrameError::MisalignedPayload)
    );
    assert_eq!(
        Frame::from_payload_bytes(&[0; 903]).err(),
        Some(FrameError::PayloadTooLarge)
    );
    assert_eq!(
        FrameError::MisalignedPayload.message(),
        "frame payload length must be a multiple of BYTES_PER_LED"
    );
}

#[test]
fn frame_is_rebuilt_from_its_bytes() {
    let frame = Frame::from_pixels(&[[11, 12, 13], [14, 15, 16]]).unwrap();
    let mut copy = Frame::default();
    copy.as_bytes_mut(&frame.as_bytes());
    assert_eq!(copy.as_bytes(), frame.as_bytes());
    assert_eq!(copy.pixels(), frame.pixels());
    let packet = frame.packet();
    let mut part = Frame::new(MAGIC, 6);
    part.packet_mut(&packet);
    assert_eq!(part.pixels(), &[[11, 12, 13], [14, 15, 16]]);
}

#[test]
fn payload_length_is_clamped_to_whole_pixels() {
    assert_eq!(clamp_payload_len(0), 0);
    assert_eq!(clamp_payload_len(2), 0);
    assert_eq!(clamp_payload_len(7), 6);
    assert_eq!(clamp_payload_len(900), 900);
    assert_eq!(clamp_payload_len(905), 900);
    assert_eq!(clamp_payload_len(usize::MAX), 900);
}

#[test]
fn state_is_flat_bytes() {
    let mut state = zero_state_frame();
    assert_eq!(state_frame_as_bytes(&state).len(), STATE_BYTES);
    state[1] = [7, 8, 9];
    assert_eq!(&state_frame_as_bytes(&state)[..7], &[0, 0, 0, 7, 8, 9, 0]);
    state_frame_as_bytes_mut(&mut state)[6] = 42;
    assert_eq!(state[2], [42, 0, 0]);
}
