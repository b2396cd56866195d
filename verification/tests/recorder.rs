use niri_android_monitor::config::Config;
use niri_android_monitor::recorder::choose_encoder;

fn chosen(encoder: &str) -> String {
    let mut config = Config::default_in(None, None);
    config.encoder = encoder.to_string();
    choose_encoder(&config)
}

#[test]
fn encoder_is_x264_unless_another_is_named() {
    assert_eq!(choose_encoder(&Config::default_in(None, None)), "x264");
    assert_eq!(chosen("auto"), "x264");
    assert_eq!(chosen("x264"), "x264");
    assert_eq!(chosen("vaapi"), "vaapi");
}
