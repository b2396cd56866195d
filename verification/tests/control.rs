use niri_android_monitor::config::{mode_string, Config};
use niri_android_monitor::control::{
    frame_reply, parse_request, session_continues, Applied, Command, Removal, Reply, SharedState,
    Step,
};
use niri_android_monitor::paths::SettingsFile;

fn state() -> SharedState {
    let mut settings = Config::default_in(None, None);
    settings.mode = "1920x1080@60".to_string();
    SharedState::new(settings, Config::default_in(Some("device".to_string()), None))
}

fn refusal(step: Step) -> String {
    match step {
        Step::Answer(Reply::Refused(message)) => message,
        _ => panic!("not refused"),
    }
}

fn applied(reply: Reply) -> Applied {
    match reply {
        Reply::Applied(applied) => applied,
        _ => panic!("not applied"),
    }
}

fn request_problem(line: &str) -> String {
    match parse_request(line) {
        Err(message) => message,
        Ok(_) => panic!("a request"),
    }
}

#[test]
fn daemon_starts_with_the_saved_settings() {
    let defaults = Config::default_in(None, None);
    let mut saved = defaults.clone();
    saved.fps = 30;
    let shared = SharedState::start(SettingsFile::Read(saved.clone()), defaults.clone());
    let shared = shared.ok().unwrap();
    assert_eq!(shared.settings().fps, 30);
    assert_eq!(shared.defaults.fps, 60);
    assert_eq!(shared.revision, 1);
    assert!(!shared.status().streaming);
    let shared = SharedState::start(SettingsFile::Missing, defaults.clone()).ok().unwrap();
    assert_eq!(shared.settings().fps, 60);
    saved.fps = 500;
    let refused = SharedState::start(SettingsFile::Read(saved), defaults);
    assert_eq!(refused.err().unwrap(), "fps must be 240 or lower");
}

#[test]
fn requests_are_told_apart() {
    assert!(matches!(parse_request(r#"{"command":"get"}"#), Ok(Command::Get)));
    assert!(matches!(parse_request("{\"command\":\"status\"}\n"), Ok(Command::Status)));
    assert!(matches!(parse_request(r#"{"command":"reset","x":1}"#), Ok(Command::Reset)));
    match parse_request(r#"{"command":"set","settings":{"fps":30}}"#) {
        Ok(Command::Update(value)) => {
            assert_eq!(value.get("fps").and_then(|v| v.as_u64()), Some(30));
            assert_eq!(value.as_object().unwrap().len(), 1);
        }
        _ => panic!("no update"),
    }
}

#[test]
fn wrong_requests_are_explained() {
    assert_eq!(request_problem(r#"{"command":"sing"}"#), "unknown command: sing");
    assert_eq!(request_problem(r#"{"command":"set"}"#), "missing settings");
    assert_eq!(request_problem(r#"{"command":7}"#), "missing command");
    assert_eq!(request_problem(r#"{"settings":{}}"#), "missing command");
    assert_eq!(request_problem(r#"["command","get"]"#), "missing command");
    assert_eq!(request_problem(""), "EOF while parsing a value at line 1 column 0");
    let error = serde_json::from_str::<serde_json::Value>("{nonsense").unwrap_err();
    assert_eq!(request_problem("{nonsense"), error.to_string());
}

#[test]
fn get_answers_settings_status_and_revision() {
    let mut shared = state();
    shared.status.set_adb_ready(true);
    match shared.begin_request(r#"{"command":"get"}"#) {
        Step::Answer(Reply::Everything(settings, status, revision)) => {
            assert_eq!(format!("{settings:?}"), format!("{:?}", shared.settings()));
            assert_eq!(format!("{status:?}"), format!("{:?}", shared.status()));
            assert!(status.adb_ready);
            assert_eq!(revision, 1);
        }
        _ => panic!("no answer"),
    }
    match shared.begin_request(r#"{"command":"status"}"#) {
        Step::Answer(Reply::Status(status, revision)) => {
            assert!(status.adb_ready && !status.streaming);
            assert_eq!(revision, 1);
        }
        _ => panic!("no answer"),
    }
    assert_eq!(refusal(shared.begin_request("{}")), "missing command");
}

#[test]
fn update_is_decoded_checked_saved_and_put_in_force() {
    let mut shared = state();
    match shared.begin_request(r#"{"command":"set","settings":{}}"#) {
        Step::Decode(value) => assert!(value.is_object()),
        _ => panic!("nothing to decode"),
    }
    let mut wanted = shared.settings();
    wanted.output = "HDMI-A-1".to_string();
    wanted.mode = "custom".to_string();
    let checked = match shared.settings_decoded(Ok(wanted)) {
        Step::Save(checked) => checked,
        _ => panic!("nothing to save"),
    };
    assert_eq!(checked.mode, "custom");
    let before = shared.revision;
    let done = applied(shared.settings_saved(checked, Ok(())));
    assert_eq!(done.settings.output, "HDMI-A-1");
    assert_eq!(done.switch_off.as_deref(), Some("Virtual-1"));
    assert_eq!(shared.settings().output, "HDMI-A-1");
    assert_eq!(shared.revision, before + 1);
    assert!(!session_continues(false, shared.revision, before));
}

#[test]
fn settings_go_to_the_decoder_as_they_were_sent() {
    let settings =
        r#"{"touch":false,"adb_serial":null,"fps":30,"position_x":-7,"x":[1.5,true,{"y":[]}]}"#;
    let line = format!(r#"{{"command":"set","settings":{settings}}}"#);
    match state().begin_request(&line) {
        Step::Decode(value) => {
            assert_eq!(value, serde_json::from_str::<serde_json::Value>(settings).unwrap());
        }
        _ => panic!("nothing to decode"),
    }
}

#[test]
fn stale_mode_is_cleared_when_the_size_changes() {
    let shared = state();
    let mut wanted = shared.settings();
    wanted.width = 1280;
    wanted.height = 720;
    match shared.settings_decoded(Ok(wanted)) {
        Step::Save(checked) => {
            assert_eq!(checked.mode, "");
            assert_eq!(mode_string(&checked), "1280x720@60");
        }
        _ => panic!("refused"),
    }
    let mut same = shared.settings();
    same.touch = false;
    match shared.settings_decoded(Ok(same)) {
        Step::Save(checked) => assert_eq!(checked.mode, "1920x1080@60"),
        _ => panic!("refused"),
    }
}

#[test]
fn refused_updates_change_nothing() {
    let mut shared = state();
    let before = format!("{:?}", shared.settings());
    let mut wanted = shared.settings();
    wanted.port = 1;
    assert_eq!(
        refusal(shared.settings_decoded(Ok(wanted))),
        "the TCP port requires a daemon restart"
    );
    let mut wanted = shared.settings();
    wanted.fps = 0;
    wanted.port = 1;
    assert_eq!(
        refusal(shared.settings_decoded(Ok(wanted))),
        "width, height, and fps must be non-zero"
    );
    assert_eq!(refusal(shared.settings_decoded(Err("bad".to_string()))), "bad");
    let mut wanted = shared.settings();
    wanted.output = "other".to_string();
    match shared.settings_saved(wanted, Err("disk full".to_string())) {
        Reply::Refused(message) => assert_eq!(message, "disk full"),
        _ => panic!("applied"),
    }
    assert_eq!(format!("{:?}", shared.settings()), before);
    assert_eq!(shared.revision, 1);
}

#[test]
fn reset_goes_back_to_the_defaults() {
    for removal in [Removal::Removed, Removal::NotFound] {
        let mut shared = state();
        let mut wanted = shared.settings();
        wanted.output = "other".to_string();
        shared.settings_saved(wanted, Ok(()));
        assert!(matches!(shared.begin_request(r#"{"command":"reset"}"#), Step::RemoveFile));
        let done = applied(shared.file_removed(removal));
        assert_eq!(done.switch_off.as_deref(), Some("other"));
        assert_eq!(done.settings.adb_serial.as_deref(), Some("device"));
        assert_eq!(format!("{:?}", shared.settings()), format!("{:?}", shared.defaults));
        assert_eq!(shared.revision, 3);
    }
    let mut shared = state();
    let done = applied(shared.file_removed(Removal::Removed));
    assert_eq!(done.switch_off, None);
}

#[test]
fn position_is_released_when_it_is_no_longer_given() {
    let mut shared = state();
    let mut placed = shared.settings();
    placed.position_x = Some(3440);
    let done = applied(shared.settings_saved(placed.clone(), Ok(())));
    assert_eq!(done.release, None);
    assert_eq!(shared.settings().position_x, Some(3440));
    let mut moved = placed.clone();
    moved.position_x = Some(-10);
    assert_eq!(applied(shared.settings_saved(moved, Ok(()))).release, None);
    let mut other = placed;
    other.output = "other".to_string();
    let done = applied(shared.settings_saved(other, Ok(())));
    assert_eq!(done.release.as_deref(), Some("Virtual-1"));
    let done = applied(shared.file_removed(Removal::Removed));
    assert_eq!(done.release.as_deref(), Some("other"));
    assert_eq!(shared.settings().position_x, None);
    assert_eq!(applied(shared.file_removed(Removal::Removed)).release, None);
}

#[test]
fn accepted_settings_come_back_after_a_restart() {
    let mut shared = state();
    let mut wanted = shared.settings();
    wanted.fps = 30;
    wanted.mode = String::new();
    wanted.position_y = Some(-7);
    let saved = match shared.settings_decoded(Ok(wanted)) {
        Step::Save(saved) => saved,
        _ => panic!("refused"),
    };
    shared.settings_saved(saved.clone(), Ok(()));
    let defaults = Config::default_in(Some("another".to_string()), None);
    let again = SharedState::start(SettingsFile::Read(saved), defaults).ok().unwrap();
    assert_eq!(format!("{:?}", again.settings()), format!("{:?}", shared.settings()));
    assert_eq!(again.settings().adb_serial, None);
}

#[test]
fn refused_resets_change_nothing() {
    let mut shared = state();
    match shared.file_removed(Removal::Failed("read-only".to_string())) {
        Reply::Refused(message) => assert_eq!(message, "read-only"),
        _ => panic!("applied"),
    }
    assert_eq!(shared.revision, 1);
    assert_eq!(shared.settings().mode, "1920x1080@60");
    shared.defaults.port = 1;
    assert_eq!(
        refusal(shared.begin_request(r#"{"command":"reset"}"#)),
        "resetting the TCP port requires a daemon restart"
    );
}

#[test]
fn revision_wraps_around() {
    let mut shared = state();
    shared.revision = u64::MAX;
    let settings = shared.settings();
    shared.settings_saved(settings, Ok(()));
    assert_eq!(shared.revision, 0);
    assert!(!session_continues(false, 0, u64::MAX));
}

#[test]
fn session_lasts_until_stopped_or_changed() {
    assert!(session_continues(false, 4, 4));
    assert!(!session_continues(true, 4, 4));
    assert!(!session_continues(false, 5, 4));
}

#[test]
fn answers_end_with_a_line_feed() {
    assert_eq!(frame_reply(b"{}".to_vec()), b"{}\n");
}
