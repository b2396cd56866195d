use std::path::PathBuf;

use niri_android_monitor::config::Config;
use niri_android_monitor::paths::{
    control_socket_path, load_settings, prepare_socket, settings_path, SettingsFile, SocketAction,
};

fn text(bytes: &[u8]) -> String {
    String::from_utf8(bytes.to_vec()).unwrap()
}

#[test]
fn settings_lie_in_the_configuration_directory() {
    for base in ["/home/u/.cfg", "/home/u/.cfg/", "relative", ""] {
        let files = settings_path(Some(base.as_bytes().to_vec()), None).unwrap();
        let file = PathBuf::from(base).join("niri-android-monitor").join("settings.json");
        assert_eq!(text(&files.file), file.to_str().unwrap());
        assert_eq!(text(&files.directory), file.parent().unwrap().to_str().unwrap());
        let temporary = file.with_extension("json.tmp");
        assert_eq!(text(&files.temporary), temporary.to_str().unwrap());
    }
}

#[test]
fn settings_lie_below_home_otherwise() {
    let files = settings_path(None, Some(b"/home/u".to_vec())).unwrap();
    assert_eq!(text(&files.file), "/home/u/.config/niri-android-monitor/settings.json");
    assert_eq!(text(&files.temporary), "/home/u/.config/niri-android-monitor/settings.json.tmp");
    assert_eq!(text(&files.directory), "/home/u/.config/niri-android-monitor");
    let files = settings_path(Some(b"/x".to_vec()), Some(b"/home/u".to_vec())).unwrap();
    assert_eq!(text(&files.directory), "/x/niri-android-monitor");
    assert_eq!(settings_path(None, None).err().unwrap(), "HOME is not set");
}

#[test]
fn socket_lies_in_the_runtime_directory() {
    let path = control_socket_path(Some(b"/run/user/1000".to_vec())).unwrap();
    assert_eq!(text(&path), "/run/user/1000/niri-android-monitor.sock");
    assert_eq!(control_socket_path(None).unwrap_err(), "XDG_RUNTIME_DIR is not set");
}

#[test]
fn saved_settings_come_before_the_defaults() {
    let defaults = Config::default_in(None, None);
    let mut saved = defaults.clone();
    saved.fps = 30;
    assert_eq!(load_settings(SettingsFile::Read(saved), &defaults).fps, 30);
    for file in [SettingsFile::Malformed, SettingsFile::Missing, SettingsFile::Unreadable] {
        assert_eq!(load_settings(file, &defaults).fps, 60);
    }
}

#[test]
fn stale_sockets_are_removed() {
    assert!(matches!(prepare_socket(false, false), SocketAction::Bind));
    assert!(matches!(prepare_socket(true, false), SocketAction::RemoveAndBind));
    assert!(matches!(prepare_socket(true, true), SocketAction::GiveUp));
}
