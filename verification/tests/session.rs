use niri_android_monitor::config::Config;
use niri_android_monitor::session::{niri_action, Session, SessionStep};

fn steps(fails_at: Option<usize>) -> Vec<SessionStep> {
    let mut session = Session::new();
    let mut steps = Vec::new();
    while session.step() != SessionStep::Ended {
        let ok = fails_at != Some(steps.len());
        steps.push(session.step());
        session.done(ok);
    }
    steps
}

#[test]
fn session_goes_through_its_steps_in_order() {
    assert_eq!(
        steps(None),
        [
            SessionStep::CustomMode,
            SessionStep::Scale,
            SessionStep::Place,
            SessionStep::SwitchOn,
            SessionStep::Settle,
            SessionStep::Locate,
            SessionStep::SendHeader,
            SessionStep::StartRecorder,
            SessionStep::Stream,
            SessionStep::SwitchOff,
        ]
    );
}

#[test]
fn output_is_off_whatever_fails() {
    let all = steps(None);
    for failing in 0..all.len() {
        let mut expected = all[..=failing].to_vec();
        if failing < all.len() - 1 {
            expected.push(SessionStep::SwitchOff);
        }
        assert_eq!(steps(Some(failing)), expected);
    }
}

fn told(config: &Config) -> Vec<Vec<String>> {
    steps(None).into_iter().filter_map(|step| niri_action(step, config)).collect()
}

#[test]
fn niri_is_told_the_mode_the_scale_and_when_the_output_is_on() {
    assert_eq!(
        told(&Config::default_in(None, None)),
        [vec!["custom-mode", "1920x1080@60"], vec!["scale", "1"], vec!["on"], vec!["off"]]
    );
}

#[test]
fn niri_is_told_a_given_position() {
    let mut config = Config::default_in(None, None);
    config.position_x = Some(-1920);
    config.position_y = Some(40);
    let words = told(&config);
    assert_eq!(words.len(), 5);
    assert_eq!(words[2], ["position", "set", "--", "-1920", "40"]);
    assert_eq!(words[3], ["on"]);
    config.position_x = None;
    assert_eq!(told(&config)[2], ["position", "set", "--", "0", "40"]);
}
