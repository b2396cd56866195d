use niri_android_monitor::config::{write_header, Config};
use niri_android_monitor::wire::{
    frame_header, push_be, read_be_u32, stream_header, FRAME_HEADER_SIZE, STREAM_HEADER_SIZE,
};

#[test]
fn writes_big_endian_numbers() {
    let mut out = vec![7];
    push_be(&mut out, 0x0102_0304, 4);
    push_be(&mut out, 0x1_ffff, 2);
    push_be(&mut out, 5, 0);
    assert_eq!(out, [7, 1, 2, 3, 4, 0xff, 0xff]);
    assert_eq!(read_be_u32(&out, 1), 0x0102_0304);
    assert_eq!(read_be_u32(&[0xff, 0xff, 0xff, 0xff], 0), u32::MAX);
}

#[test]
fn stream_header_has_twenty_bytes() {
    let header = stream_header(true, 1920, 1080, 60);
    let mut expected = b"NAMD".to_vec();
    expected.extend(2u16.to_be_bytes());
    expected.extend(1u16.to_be_bytes());
    expected.extend(1920u32.to_be_bytes());
    expected.extend(1080u32.to_be_bytes());
    expected.extend(60_000u32.to_be_bytes());
    assert_eq!(header, expected);
    assert_eq!(header.len(), STREAM_HEADER_SIZE);
    assert_eq!(header.len(), 20);
}

#[test]
fn stream_header_follows_the_settings() {
    let mut config = Config::default_in(None, None);
    config.touch = false;
    config.width = 800;
    config.height = 600;
    config.fps = 240;
    let header = write_header(&config);
    assert_eq!(header[6..8], [0, 0]);
    assert_eq!(read_be_u32(&header, 8), 800);
    assert_eq!(read_be_u32(&header, 12), 600);
    assert_eq!(read_be_u32(&header, 16), 240_000);
}

#[test]
fn frame_header_has_twenty_four_bytes() {
    let header = frame_header(0x0a0b_0c0d, 0x0102_0304_0506_0708, u64::MAX, true);
    let mut expected = 0x0a0b_0c0du32.to_be_bytes().to_vec();
    expected.extend(0x0102_0304_0506_0708u64.to_be_bytes());
    expected.extend(u64::MAX.to_be_bytes());
    expected.extend(1u32.to_be_bytes());
    assert_eq!(header, expected);
    assert_eq!(header.len(), FRAME_HEADER_SIZE);
    assert_eq!(frame_header(0, 0, 0, false), vec![0; 24]);
}
