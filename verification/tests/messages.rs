use hal1210::bindings::sent_text;
use hal1210::daemoncomm::client::{
    message, prepare, reader_step, sent, writer_step, ClientError, ReaderEvent, Task, WriterEvent,
};
use hal1210::daemoncomm::codec::{Error, Hal1210ServerCodec, MAX_MESSAGE_LEN};
use hal1210::daemoncomm::ser_de::{
    decode_frame, encode_frame, FadeInArgs, InvalidLength, WireLedCommand,
};
use hal1210::daemoncomm::{LedCommand, MessageToServerData, SOCKET_ADDR};
use hal1210::ledcomm::zero_state_frame;
use tokio_util::bytes::BytesMut;

#[test]
fn framed_message_is_read_back_whole() {
    let codec = Hal1210ServerCodec;
    let mut stream = BytesMut::new();
    codec.encode(b"first", &mut stream).unwrap();
    codec.encode(b"", &mut stream).unwrap();
    codec.encode(&[7; 0x1_0203], &mut stream).unwrap();
    assert_eq!(&stream[..15], b"HAL1210\x00\x00\x05first");
    assert_eq!(&stream[25..35], b"HAL1210\x01\x02\x03");

    let data = codec.decode(&mut stream).unwrap().unwrap();
    assert_eq!(data, b"first");
    codec.consume(&mut stream, data.len());
    let data = codec.decode(&mut stream).unwrap().unwrap();
    assert_eq!(data, b"");
    codec.consume(&mut stream, data.len());
    let data = codec.decode(&mut stream).unwrap().unwrap();
    assert_eq!(data, vec![7; 0x1_0203]);
    codec.consume(&mut stream, data.len());
    assert!(stream.is_empty());
}

#[test]
fn message_stays_until_it_is_consumed() {
    let codec = Hal1210ServerCodec;
    let mut stream = BytesMut::new();
    codec.encode(b"again", &mut stream).unwrap();
    let before = stream.clone();
    assert_eq!(codec.decode(&mut stream).unwrap().unwrap(), b"again");
    assert_eq!(stream, before);
    assert_eq!(codec.decode(&mut stream).unwrap().unwrap(), b"again");
}

#[test]
fn incomplete_message_waits() {
    let codec = Hal1210ServerCodec;
    let mut whole = BytesMut::new();
    codec.encode(b"hello", &mut whole).unwrap();
    for cut in 0..whole.len() {
        let mut stream = BytesMut::from(&whole[..cut]);
        assert!(codec.decode(&mut stream).unwrap().is_none());
        assert_eq!(stream, &whole[..cut]);
    }
}

#[test]
fn wrong_magic_is_refused() {
    let codec = Hal1210ServerCodec;
    let mut stream = BytesMut::from(&b"HAL1211\x00\x00\x00"[..]);
    let err = codec.decode(&mut stream).unwrap_err();
    assert!(matches!(err, Error::InvalidMagic));
    assert_eq!(err.message(), "Invalid magic bytes");
    assert_eq!(stream.len(), 10);
}

#[test]
fn message_beyond_three_length_bytes_is_refused() {
    let codec = Hal1210ServerCodec;
    let mut stream = BytesMut::from(&b"kept"[..]);
    let err = codec.encode(&vec![0; MAX_MESSAGE_LEN + 1], &mut stream).unwrap_err();
    assert!(matches!(err, Error::MessageTooLarge));
    assert_eq!(err.message(), "Message too large");
    assert_eq!(stream, &b"kept"[..]);
    codec.encode(&vec![0; MAX_MESSAGE_LEN], &mut stream).unwrap();
    assert_eq!(stream.len(), 4 + 10 + MAX_MESSAGE_LEN);
    assert_eq!(&stream[11..14], &[0xff, 0xff, 0xff]);
}

#[test]
fn codec_errors_are_described() {
    assert_eq!(Error::Io("broken pipe".to_string()).message(), "broken pipe");
    assert_eq!(
        Error::Serialize("depth".to_string()).message(),
        "Serialization error: depth"
    );
    assert_eq!(
        Error::Deserialize("marker".to_string()).message(),
        "Deserialization error: marker"
    );
}

#[test]
fn frames_keep_their_bytes() {
    let mut frame = zero_state_frame();
    frame[0] = [1, 2, 3];
    frame[299] = [4, 5, 6];
    let bytes = encode_frame(&frame);
    assert_eq!(bytes.len(), 900);
    assert_eq!(&bytes[..3], &[1, 2, 3]);
    assert_eq!(&bytes[897..], &[4, 5, 6]);
    assert_eq!(decode_frame(&bytes).unwrap(), frame);
    let err = decode_frame(&bytes[..899]).unwrap_err();
    assert_eq!(err, InvalidLength { len: 899 });
    assert_eq!(err.expected(), "expected 900 bytes for StateFrame");
}

#[test]
fn commands_survive_the_wire() {
    let mut frame = zero_state_frame();
    frame[7] = [9, 9, 9];
    let wire = LedCommand::FadeIn { state: frame, duration_ms: Some(250) }.to_wire();
    assert!(matches!(wire, WireLedCommand::FadeIn(FadeInArgs::Detailed { .. })));
    match LedCommand::from_wire(wire).unwrap() {
        LedCommand::FadeIn { state, duration_ms } => {
            assert_eq!(state, frame);
            assert_eq!(duration_ms, Some(250));
        }
        other => panic!("unexpected command: {other:?}"),
    }
    match LedCommand::from_wire(LedCommand::SetStripState(frame).to_wire()).unwrap() {
        LedCommand::SetStripState(state) => assert_eq!(state, frame),
        other => panic!("unexpected command: {other:?}"),
    }
    match LedCommand::from_wire(LedCommand::SetStaticColor([1, 2, 3]).to_wire()).unwrap() {
        LedCommand::SetStaticColor(color) => assert_eq!(color, [1, 2, 3]),
        other => panic!("unexpected command: {other:?}"),
    }
    match LedCommand::from_wire(LedCommand::FadeOut { duration_ms: None }.to_wire()).unwrap() {
        LedCommand::FadeOut { duration_ms } => assert_eq!(duration_ms, None),
        other => panic!("unexpected command: {other:?}"),
    }
    match LedCommand::from_wire(LedCommand::Breathing([3, 2, 1]).to_wire()).unwrap() {
        LedCommand::Breathing(color) => assert_eq!(color, [3, 2, 1]),
        other => panic!("unexpected command: {other:?}"),
    }
    assert!(matches!(
        LedCommand::from_wire(LedCommand::Rainbow.to_wire()),
        Ok(LedCommand::Rainbow)
    ));
}

#[test]
fn bare_fade_in_has_no_duration() {
    let wire = WireLedCommand::FadeIn(FadeInArgs::Legacy(vec![5; 900]));
    match LedCommand::from_wire(wire).unwrap() {
        LedCommand::FadeIn { state, duration_ms } => {
            assert_eq!(state, [[5, 5, 5]; 300]);
            assert_eq!(duration_ms, None);
        }
        other => panic!("unexpected command: {other:?}"),
    }
    let wire = WireLedCommand::FadeIn(FadeInArgs::Legacy(vec![5; 3]));
    assert_eq!(LedCommand::from_wire(wire).unwrap_err().len, 3);
    let wire = WireLedCommand::SetStripState(vec![0; 901]);
    assert_eq!(LedCommand::from_wire(wire).unwrap_err().len, 901);
}

#[test]
fn wire_names_are_camel_case() {
    let state = zero_state_frame();
    assert_eq!(LedCommand::SetStaticColor([0; 3]).wire_name(), "setStaticColor");
    assert_eq!(LedCommand::SetStripState(state).wire_name(), "setStripState");
    assert_eq!(LedCommand::FadeIn { state, duration_ms: None }.wire_name(), "fadeIn");
    assert_eq!(LedCommand::FadeOut { duration_ms: None }.wire_name(), "fadeOut");
    assert_eq!(LedCommand::Rainbow.wire_name(), "rainbow");
    assert_eq!(LedCommand::Breathing([0; 3]).wire_name(), "breathing");
    assert!(!LedCommand::FadeOut { duration_ms: None }.has_wire_args());
    assert!(LedCommand::FadeOut { duration_ms: Some(1) }.has_wire_args());
    assert!(!LedCommand::Rainbow.has_wire_args());
}

#[test]
fn requests_get_fresh_ids() {
    let first = prepare(MessageToServerData::GetManualMode);
    let second = prepare(MessageToServerData::GetManualMode);
    assert_ne!(first.id, second.id);
    assert_ne!(first.id, 0);
    for _ in 0..64 {
        let fresh = prepare(MessageToServerData::GetManualMode);
        assert_eq!(fresh.id / 0x1000_0000_0000_0000_0000 % 16, 4);
        assert_eq!(fresh.id / 0x4000_0000_0000_0000 % 4, 2);
        let text = sent_text(&fresh, true).unwrap();
        assert_eq!(text.chars().nth(14), Some('4'));
        assert!(matches!(text.chars().nth(19), Some('8' | '9' | 'a' | 'b')));
    }
    assert!(matches!(first.data, MessageToServerData::GetManualMode));
    assert_eq!(sent(&first, true), Ok(first.id));
    assert_eq!(sent(&first, false), Err(ClientError::ConnectionClosed));
    assert_eq!(message(5, MessageToServerData::GetIdleInhibit).id, 5);
    assert_eq!(SOCKET_ADDR, "127.0.0.1:1210");
}

#[test]
fn client_tasks_end_with_their_connection() {
    assert_eq!(reader_step(ReaderEvent::Message { taken: true }), Task::Continue);
    assert_eq!(reader_step(ReaderEvent::Message { taken: false }), Task::Stop);
    assert_eq!(reader_step(ReaderEvent::DecodeError), Task::Stop);
    assert_eq!(reader_step(ReaderEvent::Closed), Task::Stop);
    assert_eq!(reader_step(ReaderEvent::Cancelled), Task::Stop);
    assert_eq!(writer_step(WriterEvent::Message { sent: true }), Task::Continue);
    assert_eq!(writer_step(WriterEvent::Message { sent: false }), Task::Stop);
    assert_eq!(writer_step(WriterEvent::SenderDropped), Task::Stop);
    assert_eq!(writer_step(WriterEvent::Cancelled), Task::Stop);
}
