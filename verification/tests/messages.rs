use niri_android_monitor::messages::{
    clamp_unit, decode_message, is_nan, normalize_touch, ControlMessage, MessageReader, Reaction,
    Received, Touch, CONTROL_MESSAGE_SIZE,
};

#[test]
fn control_message_coordinates_are_big_endian_floats() {
    let mut message = [0u8; CONTROL_MESSAGE_SIZE];
    message[0] = 1;
    message[4..8].copy_from_slice(&0.25f32.to_bits().to_be_bytes());
    message[8..12].copy_from_slice(&0.75f32.to_bits().to_be_bytes());
    let touch = match decode_message(&message) {
        ControlMessage::Touch(touch) => touch,
        _ => panic!("no touch"),
    };
    assert_eq!(f32::from_bits(touch.x), 0.25);
    assert_eq!(f32::from_bits(touch.y), 0.75);
}

#[test]
fn messages_are_told_apart_by_their_first_byte() {
    let mut message = [0u8; CONTROL_MESSAGE_SIZE];
    message[1] = 3;
    message[4..8].copy_from_slice(&12.5f32.to_bits().to_be_bytes());
    assert_eq!(decode_message(&message), ControlMessage::Unknown);
    message[0] = 2;
    assert_eq!(decode_message(&message), ControlMessage::DecodeTime(12.5f32.to_bits()));
    message[0] = 1;
    let touch = Touch { action: 3, x: 12.5f32.to_bits(), y: 0 };
    assert_eq!(decode_message(&message), ControlMessage::Touch(touch));
    message[0] = 3;
    assert_eq!(decode_message(&message), ControlMessage::Unknown);
}

#[test]
fn bit_patterns_are_clamped_like_numbers() {
    let mut samples = vec![0u32, 1, 0x8000_0000, 0x8000_0001, 0x3f80_0000, 0x3f80_0001, u32::MAX];
    for number in [0.5f32, 0.999, 1.0, 1.5, -0.5, -1.0, f32::MAX, f32::MIN, f32::MIN_POSITIVE] {
        samples.push(number.to_bits());
    }
    samples.extend([f32::INFINITY.to_bits(), f32::NEG_INFINITY.to_bits(), f32::NAN.to_bits()]);
    samples.extend((0..4096u32).map(|i| i.wrapping_mul(1_048_583)));
    for bits in samples {
        let number = f32::from_bits(bits);
        assert_eq!(is_nan(bits), number.is_nan(), "{bits:x}");
        if !number.is_nan() {
            assert_eq!(clamp_unit(bits), number.clamp(0.0, 1.0).to_bits(), "{bits:x}");
        }
    }
}

#[test]
fn touches_without_coordinates_are_dropped() {
    let nan = f32::NAN.to_bits();
    let half = 0.5f32.to_bits();
    assert_eq!(normalize_touch(Touch { action: 0, x: nan, y: half }), None);
    assert_eq!(normalize_touch(Touch { action: 0, x: half, y: nan }), None);
    let far = Touch { action: 1, x: f32::INFINITY.to_bits(), y: (-2.0f32).to_bits() };
    let near = Touch { action: 1, x: 1.0f32.to_bits(), y: 0 };
    assert_eq!(normalize_touch(far), Some(near));
}

fn read_in_chunks(stream: &[u8], size: usize) -> (Vec<Vec<u8>>, usize) {
    let mut reader = MessageReader::new();
    let mut messages = Vec::new();
    let mut at = 0;
    while at < stream.len() {
        let count = size.min(reader.wanted()).min(stream.len() - at);
        messages.extend(reader.accept(&stream[at..at + count]));
        at += count;
    }
    (messages, 16 - reader.wanted())
}

#[test]
fn chunk_sizes_do_not_change_the_messages() {
    let stream: Vec<u8> = (0..70u8).collect();
    let expected: Vec<Vec<u8>> = stream.chunks_exact(16).map(|m| m.to_vec()).collect();
    for size in 1..20 {
        assert_eq!(read_in_chunks(&stream, size), (expected.clone(), 70 - 64));
    }
}

#[test]
fn reader_reacts_to_what_it_receives() {
    let mut reader = MessageReader::new();
    assert!(matches!(reader.react(Received::Nothing), Reaction::ReadOn));
    assert!(matches!(reader.react(Received::Bytes(vec![2, 0, 0, 0])), Reaction::ReadOn));
    assert!(matches!(reader.react(Received::Nothing), Reaction::ReadOn));
    assert_eq!(reader.wanted(), 12);
    let mut rest = vec![0x41, 0x20, 0, 0];
    rest.resize(12, 0);
    match reader.react(Received::Bytes(rest)) {
        Reaction::Act(message) => {
            assert_eq!(message, ControlMessage::DecodeTime(10.0f32.to_bits()));
        }
        _ => panic!("no message"),
    }
    assert_eq!(reader.wanted(), 16);
    assert!(matches!(reader.react(Received::Closed), Reaction::Stop));
    assert!(matches!(reader.react(Received::Failed), Reaction::Stop));
}
