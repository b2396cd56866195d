use niri_android_monitor::config::Config;
use niri_android_monitor::status::{is_finite, DaemonStatus, StreamRate, StreamStats};

#[test]
fn stream_is_noted_and_forgotten() {
    let mut status = DaemonStatus::default();
    assert!(!status.streaming && !status.adb_ready);
    status.set_adb_ready(true);
    status.start_stream(&Config::default_in(None, None), "x264".to_string());
    status.set_rate(StreamRate { frames: 1, bytes: 2, elapsed_nanos: 3 });
    status.set_decode_time(9.5f32.to_bits());
    let copy = status.clone();
    assert!(copy.streaming);
    assert_eq!(copy.active_output.as_deref(), Some("Virtual-1"));
    assert_eq!(copy.active_width, Some(1920));
    assert_eq!(copy.active_height, Some(1080));
    assert_eq!(copy.active_fps, Some(60));
    assert_eq!(copy.active_encoder.as_deref(), Some("x264"));
    assert_eq!(copy.rate.unwrap().bytes, 2);
    assert_eq!(copy.android_decode_ms.map(f32::from_bits), Some(9.5));
    status.reset_stream_status();
    assert!(status.adb_ready && !status.streaming);
    assert_eq!(status.active_output, None);
    assert_eq!(status.active_width, None);
    assert_eq!(status.active_height, None);
    assert_eq!(status.active_fps, None);
    assert_eq!(status.active_encoder, None);
    assert!(status.rate.is_none());
    assert_eq!(status.android_decode_ms, None);
}

#[test]
fn only_finite_decode_times_are_noted() {
    let mut status = DaemonStatus::default();
    for number in [f32::NAN, f32::INFINITY, f32::NEG_INFINITY] {
        status.set_decode_time(number.to_bits());
        assert_eq!(status.android_decode_ms, None);
    }
    status.set_decode_time((-1.0f32).to_bits());
    assert_eq!(status.android_decode_ms, Some((-1.0f32).to_bits()));
    for i in 0..8192u32 {
        let bits = i.wrapping_mul(524_309);
        assert_eq!(is_finite(bits), f32::from_bits(bits).is_finite(), "{bits:x}");
    }
}

#[test]
fn rates_are_reported_every_two_seconds() {
    let mut stats = StreamStats::new();
    assert!(stats.record(100, 1_000_000_000).is_none());
    assert!(stats.record(50, 1_999_999_999).is_none());
    assert_eq!(stats.counted(), (2, 150));
    let rate = stats.record(7, 2_000_000_000).unwrap();
    assert_eq!((rate.frames, rate.bytes, rate.elapsed_nanos), (3, 157, 2_000_000_000));
    assert_eq!(stats.counted(), (0, 0));
    assert!(stats.record(1, 5).is_none());
}
