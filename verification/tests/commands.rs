use niri_android_monitor::commands::{
    adb_reverse_args, automatic_position_action, custom_mode_action, encoder_args,
    list_outputs_args, niri_failure, niri_output_args, position_action, scale_action,
    switch_off_action, switch_on_action,
};
use niri_android_monitor::config::Config;

fn config() -> Config {
    Config::default_in(None, None)
}

#[test]
fn adb_maps_the_port() {
    assert_eq!(adb_reverse_args(&config()), ["reverse", "tcp:57421", "tcp:57421"]);
    let chosen = Config::default_in(Some("f2ccba87".to_string()), None);
    assert_eq!(
        adb_reverse_args(&chosen),
        ["-s", "f2ccba87", "reverse", "tcp:57421", "tcp:57421"]
    );
}

#[test]
fn niri_is_told_what_to_do() {
    assert_eq!(
        niri_output_args("Virtual-1", &switch_off_action()),
        ["msg", "output", "Virtual-1", "off"]
    );
    assert_eq!(list_outputs_args(), ["msg", "-j", "outputs"]);
    assert_eq!(niri_output_args("a", &vec![]), ["msg", "output", "a"]);
}

#[test]
fn niri_failures_name_the_action() {
    let action = custom_mode_action(&config());
    assert_eq!(action, ["custom-mode", "1920x1080@60"]);
    assert_eq!(niri_failure(&action), "niri output action failed: custom-mode 1920x1080@60");
    assert_eq!(niri_failure(&scale_action()), "niri output action failed: scale 1");
    assert_eq!(switch_on_action(), ["on"]);
}

#[test]
fn outputs_are_placed() {
    assert_eq!(position_action(3440, 0), ["position", "set", "--", "3440", "0"]);
    assert_eq!(
        position_action(-1920, i32::MIN),
        ["position", "set", "--", "-1920", "-2147483648"]
    );
    assert_eq!(automatic_position_action(), ["position", "auto"]);
}

#[test]
fn hardware_encoder_arguments() {
    assert_eq!(
        encoder_args(&config(), "vaapi"),
        [
            "-o", "Virtual-1", "-B", "60", "--no-dmabuf", "-c", "h264_vaapi", "-d",
            "/dev/dri/renderD128", "-b", "0", "-p", "aud=1", "-p", "g=60", "-p", "rc_mode=CQP",
            "-p", "qp=20", "-m", "h264", "-y", "-f", "/dev/stdout",
        ]
    );
}

#[test]
fn software_encoder_arguments() {
    let mut settings = config();
    settings.fps = 30;
    assert_eq!(
        encoder_args(&settings, "x264"),
        [
            "-o", "Virtual-1", "-B", "30", "--no-dmabuf", "-c", "libx264", "-b", "0", "-p",
            "preset=ultrafast", "-p", "tune=zerolatency", "-p",
            "x264-params=aud=1:repeat-headers=1:keyint=30:min-keyint=30:scenecut=0", "-m", "h264",
            "-y", "-f", "/dev/stdout",
        ]
    );
}
