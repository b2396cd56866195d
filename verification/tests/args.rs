use niri_android_monitor::args::{parse, parse_args, Invocation};
use niri_android_monitor::config::Config;

fn read(args: &[&str]) -> Result<Invocation, String> {
    let args: Vec<String> = args.iter().map(|a| a.to_string()).collect();
    parse_args(Config::default_in(None, None), &args)
}

fn settings(args: &[&str]) -> Config {
    match read(args) {
        Ok(Invocation::Run(config)) => config,
        _ => panic!("no settings"),
    }
}

fn problem(args: &[&str]) -> String {
    match read(args) {
        Err(message) => message,
        _ => panic!("no problem"),
    }
}

#[test]
fn parses_numbers_of_the_wanted_type() {
    assert_eq!(parse::<u32>("1920", "width"), Ok(1920));
    assert_eq!(parse::<u32>("+60", "fps"), Ok(60));
    assert_eq!(parse::<u16>("65535", "port"), Ok(65535));
    assert_eq!(parse::<u16>("65536", "port"), Err("invalid port: 65536".to_string()));
    assert_eq!(parse::<u32>("-1", "width"), Err("invalid width: -1".to_string()));
    assert_eq!(parse::<u32>("", "height"), Err("invalid height: ".to_string()));
    assert_eq!(parse::<i32>("-2147483648", "position-x"), Ok(i32::MIN));
    assert_eq!(parse::<i32>("+7", "position-x"), Ok(7));
    let message = "invalid position-y: 2147483648".to_string();
    assert_eq!(parse::<i32>("2147483648", "position-y"), Err(message));
}

#[test]
fn no_arguments_give_the_defaults_with_a_mode() {
    let config = settings(&[]);
    assert_eq!(config.mode, "1920x1080@60");
    assert_eq!(config.output, "Virtual-1");
}

#[test]
fn every_option_sets_its_setting() {
    let config = settings(&[
        "--output", "HDMI-A-1", "--mode", "800x600@30", "--width", "640", "--height", "480",
        "--fps", "25", "--port", "4000", "--adb-serial", "abc", "--encoder", "vaapi",
        "--render-node", "/dev/dri/renderD129", "--ydotool-socket", "/tmp/y", "--no-touch",
        "--position-x", "-1280", "--position-y", "+30",
    ]);
    assert_eq!(config.output, "HDMI-A-1");
    assert_eq!(config.mode, "800x600@30");
    assert_eq!((config.width, config.height, config.fps), (640, 480, 25));
    assert_eq!(config.port, 4000);
    assert_eq!(config.adb_serial.as_deref(), Some("abc"));
    assert_eq!(config.encoder, "vaapi");
    assert_eq!(config.render_node, "/dev/dri/renderD129");
    assert_eq!(config.ydotool_socket, b"/tmp/y");
    assert!(!config.touch);
    assert_eq!((config.position_x, config.position_y), (Some(-1280), Some(30)));
}

#[test]
fn manual_start_is_accepted() {
    let config = settings(&[
        "--adb-serial", "f2ccba87", "--output", "Virtual-1", "--width", "1920", "--height", "1080",
        "--fps", "60", "--position-x", "3440", "--position-y", "0",
    ]);
    assert_eq!(config.adb_serial.as_deref(), Some("f2ccba87"));
    assert_eq!(config.output, "Virtual-1");
    assert_eq!((config.width, config.height, config.fps), (1920, 1080, 60));
    assert_eq!(config.mode, "1920x1080@60");
    assert_eq!((config.position_x, config.position_y), (Some(3440), Some(0)));
}

#[test]
fn mode_is_that_of_the_size_where_it_is_left_out() {
    let config = settings(&["--fps", "30", "--width", "1280", "--height", "720"]);
    assert_eq!(config.mode, "1280x720@30");
    assert_eq!(settings(&["--mode", ""]).mode, "1920x1080@60");
    assert_eq!(settings(&["--mode", " "]).mode, " ");
}

#[test]
fn later_arguments_win() {
    assert_eq!(settings(&["--fps", "30", "--fps", "50"]).fps, 50);
}

#[test]
fn values_may_look_like_options() {
    assert_eq!(settings(&["--output", "--help"]).output, "--help");
}

#[test]
fn help_ends_the_reading() {
    assert!(matches!(read(&["--help", "--bogus"]), Ok(Invocation::Help)));
    assert!(matches!(read(&["--width", "0", "-h"]), Ok(Invocation::Help)));
}

#[test]
fn wrong_arguments_are_named() {
    assert_eq!(problem(&["--fps"]), "missing value for --fps");
    assert_eq!(problem(&["--ydotool-socket"]), "missing value for --ydotool-socket");
    assert_eq!(problem(&["--width", "wide"]), "invalid width: wide");
    assert_eq!(problem(&["--position-x"]), "missing value for --position-x");
    assert_eq!(problem(&["--position-x", "left"]), "invalid position-x: left");
    assert_eq!(problem(&["--position-y", "-2147483649"]), "invalid position-y: -2147483649");
    assert_eq!(problem(&["--port", "70000", "--help"]), "invalid port: 70000");
    assert_eq!(problem(&["--bogus"]), "unknown argument: --bogus");
    assert_eq!(problem(&["1920"]), "unknown argument: 1920");
    assert_eq!(problem(&["--fps", "300"]), "fps must be 240 or lower");
    assert_eq!(problem(&["--output", " "]), "output must not be empty");
}
