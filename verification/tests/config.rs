use niri_android_monitor::config::{mode_string, position, touch_socket, Config};

fn defaults() -> Config {
    Config::default_in(None, None)
}

#[test]
fn default_settings() {
    let config = defaults();
    assert_eq!(config.output, "Virtual-1");
    assert_eq!(config.mode, "");
    assert_eq!((config.width, config.height, config.fps), (1920, 1080, 60));
    assert_eq!(config.port, 57421);
    assert_eq!(config.adb_serial, None);
    assert_eq!(config.encoder, "auto");
    assert_eq!(config.render_node, "/dev/dri/renderD128");
    assert!(config.touch);
    assert_eq!(config.ydotool_socket, b"/run/ydotoold/socket");
    assert_eq!((config.position_x, config.position_y), (None, None));
    assert_eq!(config.validate(), Ok(()));
}

#[test]
fn environment_names_device_and_socket() {
    let config = Config::default_in(Some("f2ccba87".to_string()), Some(b"/tmp/y\xff".to_vec()));
    assert_eq!(config.adb_serial.as_deref(), Some("f2ccba87"));
    assert_eq!(config.ydotool_socket, b"/tmp/y\xff");
}

#[test]
fn zero_sizes_and_rates_are_refused() {
    let message = Err("width, height, and fps must be non-zero".to_string());
    let mut config = defaults();
    config.width = 0;
    assert_eq!(config.validate(), message);
    let mut config = defaults();
    config.height = 0;
    assert_eq!(config.validate(), message);
    let mut config = defaults();
    config.fps = 0;
    config.encoder = "none".to_string();
    assert_eq!(config.validate(), message);
}

#[test]
fn high_rates_are_refused() {
    let mut config = defaults();
    config.fps = 240;
    assert_eq!(config.validate(), Ok(()));
    config.fps = 241;
    assert_eq!(config.validate(), Err("fps must be 240 or lower".to_string()));
}

#[test]
fn unknown_encoders_are_refused() {
    for encoder in ["auto", "vaapi", "x264"] {
        let mut config = defaults();
        config.encoder = encoder.to_string();
        assert_eq!(config.validate(), Ok(()));
    }
    for encoder in ["", "Auto", "x265", "vaapi "] {
        let mut config = defaults();
        config.encoder = encoder.to_string();
        let message = "encoder must be auto, vaapi, or x264".to_string();
        assert_eq!(config.validate(), Err(message));
    }
}

#[test]
fn blank_outputs_are_refused() {
    for output in ["", "  ", "\t\n", "\u{3000}"] {
        let mut config = defaults();
        config.output = output.to_string();
        assert_eq!(config.validate(), Err("output must not be empty".to_string()));
    }
}

#[test]
fn mode_follows_size_and_rate_unless_it_is_set() {
    let mut config = defaults();
    assert_eq!(mode_string(&config), "1920x1080@60");
    config.mode = " \t".to_string();
    assert_eq!(mode_string(&config), "1920x1080@60");
    config.mode = " 2560x1440@119.88 ".to_string();
    assert_eq!(mode_string(&config), " 2560x1440@119.88 ");
}

#[test]
fn touch_socket_only_where_touch_is_wanted() {
    let mut config = defaults();
    assert_eq!(touch_socket(&config), Some(b"/run/ydotoold/socket".to_vec()));
    config.touch = false;
    assert_eq!(touch_socket(&config), None);
}

#[test]
fn position_is_left_to_niri_unless_it_is_given() {
    let mut config = defaults();
    assert_eq!(position(&config), None);
    config.position_y = Some(-5);
    assert_eq!(position(&config), Some((0, -5)));
    config.position_x = Some(3440);
    assert_eq!(position(&config), Some((3440, -5)));
    config.position_y = None;
    assert_eq!(position(&config), Some((3440, 0)));
    assert_eq!(config.validate(), Ok(()));
    assert_eq!(config.clone().position_x, Some(3440));
}

#[test]
fn copies_say_the_same() {
    let config = Config::default_in(Some("serial".to_string()), None);
    let copy = config.clone();
    assert_eq!(format!("{config:?}"), format!("{copy:?}"));
}
