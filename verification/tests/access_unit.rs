use niri_android_monitor::access_unit::{
    send_access_unit, AccessUnits, Forwarder, Frame, MAX_ACCESS_UNIT_SIZE,
};

const DELIMITER: [u8; 6] = [0, 0, 0, 1, 9, 0xf0];
const KEY: [u8; 6] = [0, 0, 0, 1, 0x65, 1];
const PLAIN: [u8; 6] = [0, 0, 0, 1, 0x41, 2];

fn number(header: &[u8], from: usize, to: usize) -> u64 {
    header[from..to].iter().fold(0, |n, byte| n * 256 + *byte as u64)
}

fn fields(frame: &Frame) -> (u64, u64, u64, u64) {
    let h = &frame.header;
    assert_eq!(h.len(), 24);
    (number(h, 0, 4), number(h, 4, 12), number(h, 12, 20), number(h, 20, 24))
}

#[test]
fn header_carries_length_time_number_and_key_flag() {
    let mut last_pts = 10;
    let header = send_access_unit(&KEY, 1234, 7, &mut last_pts).unwrap();
    assert_eq!(last_pts, 1234);
    assert_eq!(number(&header, 0, 4), 6);
    assert_eq!(number(&header, 4, 12), 1234);
    assert_eq!(number(&header, 12, 20), 7);
    assert_eq!(number(&header, 20, 24), 1);
    let header = send_access_unit(&PLAIN, 1235, 8, &mut last_pts).unwrap();
    assert_eq!(number(&header, 20, 24), 0);
}

#[test]
fn time_stamps_move_on_even_when_the_clock_does_not() {
    let mut last_pts = 500;
    send_access_unit(&PLAIN, 500, 0, &mut last_pts).unwrap();
    assert_eq!(last_pts, 501);
    send_access_unit(&PLAIN, 3, 1, &mut last_pts).unwrap();
    assert_eq!(last_pts, 502);
    send_access_unit(&PLAIN, u128::MAX, 2, &mut last_pts).unwrap();
    assert_eq!(last_pts, u64::MAX);
    send_access_unit(&PLAIN, 9, 3, &mut last_pts).unwrap();
    assert_eq!(last_pts, u64::MAX);
}

#[test]
fn first_time_stamp_is_at_least_one() {
    let mut last_pts = 0;
    send_access_unit(&PLAIN, 0, 0, &mut last_pts).unwrap();
    assert_eq!(last_pts, 1);
}

#[test]
fn delimiter_begins_the_next_unit() {
    let mut units = AccessUnits::new();
    let (frame, result) = units.consume_nal(DELIMITER.to_vec(), 5);
    assert!(frame.is_none() && result.is_ok());
    let (frame, result) = units.consume_nal(KEY.to_vec(), 6);
    assert!(frame.is_none() && result.is_ok());
    let (frame, result) = units.consume_nal(DELIMITER.to_vec(), 7);
    assert!(result.is_ok());
    let frame = frame.unwrap();
    assert_eq!(frame.payload, [DELIMITER, KEY].concat());
    assert_eq!(fields(&frame), (12, 7, 0, 1));
    assert_eq!(units.sequence(), 1);
    let (frame, _) = units.consume_nal(PLAIN.to_vec(), 8);
    assert!(frame.is_none());
    let frame = units.flush(9).unwrap();
    assert_eq!(frame.payload, [DELIMITER, PLAIN].concat());
    assert_eq!(fields(&frame), (12, 9, 1, 0));
    assert!(units.flush(10).is_none());
}

#[test]
fn too_long_a_unit_is_an_error() {
    let mut units = AccessUnits::new();
    let (_, result) = units.consume_nal(vec![1; MAX_ACCESS_UNIT_SIZE], 0);
    assert!(result.is_ok());
    let (frame, result) = units.consume_nal(vec![2], 0);
    assert!(frame.is_none());
    assert_eq!(result.unwrap_err(), "H.264 access unit exceeded 16 MiB");
    let mut long = DELIMITER.to_vec();
    long.resize(MAX_ACCESS_UNIT_SIZE + 1, 3);
    let (frame, result) = units.consume_nal(long, 1);
    assert_eq!(frame.unwrap().payload.len(), MAX_ACCESS_UNIT_SIZE);
    assert_eq!(result.unwrap_err(), "H.264 access unit exceeded 16 MiB");
    assert_eq!(units.sequence(), 1);
    assert!(units.flush(2).is_none());
}

fn forward(stream: &[u8], size: usize) -> Vec<Frame> {
    let mut forwarder = Forwarder::new();
    let mut frames = Vec::new();
    let mut clock = 0u128;
    for chunk in stream.chunks(size) {
        forwarder.push(chunk);
        loop {
            clock += 1;
            match forwarder.step(clock) {
                Some((frame, result)) => {
                    frames.extend(frame);
                    result.unwrap();
                }
                None => break,
            }
        }
    }
    if let Some((frame, result)) = forwarder.finish(clock + 1) {
        frames.extend(frame);
        result.unwrap();
    }
    frames.extend(forwarder.flush(clock + 2));
    frames
}

#[test]
fn forwarding_keeps_every_byte_in_order() {
    let stream = [
        &[9u8, 9][..],
        &DELIMITER,
        &KEY,
        &DELIMITER,
        &PLAIN,
        &PLAIN,
        &DELIMITER,
        &DELIMITER,
        &PLAIN,
    ]
    .concat();
    for size in 1..=stream.len() {
        let frames = forward(&stream, size);
        let payloads: Vec<u8> = frames.iter().flat_map(|f| f.payload.clone()).collect();
        assert_eq!(payloads, stream[2..].to_vec());
        assert_eq!(frames.len(), 4);
        let mut last = 0;
        for (i, frame) in frames.iter().enumerate() {
            let (length, pts, sequence, flags) = fields(frame);
            assert_eq!(length as usize, frame.payload.len());
            assert_eq!(sequence as usize, i);
            assert!(pts > last);
            last = pts;
            assert_eq!(flags, if i == 0 { 1 } else { 0 });
            assert_eq!(frame.payload[..6], DELIMITER);
            assert!(!frame.payload[6..].windows(6).any(|bytes| bytes == DELIMITER));
        }
    }
}

#[test]
fn stream_without_a_start_code_sends_nothing() {
    assert!(forward(&[1, 2, 3, 4, 5, 0, 0, 2], 3).is_empty());
    let mut forwarder = Forwarder::new();
    assert!(forwarder.finish(0).is_none());
    assert!(forwarder.flush(0).is_none());
    assert_eq!(forwarder.sequence(), 0);
}

#[test]
fn peer_finds_the_frames_in_what_is_written() {
    let stream = [&DELIMITER[..], &KEY, &DELIMITER, &PLAIN, &PLAIN].concat();
    let frames = forward(&stream, 7);
    let mut bytes: Vec<u8> = Vec::new();
    for frame in &frames {
        bytes.extend(&frame.header);
        bytes.extend(&frame.payload);
    }
    let mut rest = &bytes[..];
    let mut units = Vec::new();
    while !rest.is_empty() {
        let end = 24 + number(rest, 0, 4) as usize;
        assert_eq!(number(rest, 12, 20) as usize, units.len());
        units.push((rest[24..end].to_vec(), number(rest, 20, 24)));
        rest = &rest[end..];
    }
    let first = ([DELIMITER, KEY].concat(), 1);
    let second = ([DELIMITER, PLAIN, PLAIN].concat(), 0);
    assert_eq!(units, [first, second]);
}
