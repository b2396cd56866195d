use niri_android_monitor::config::Config;
use niri_android_monitor::supervisor::{outputs_to_switch_off, AdbChange, AdbMonitor};

const SECOND: u128 = 1_000_000_000;

#[test]
fn device_is_looked_for_every_two_seconds() {
    let mut monitor = AdbMonitor::new(5);
    assert!(monitor.is_due(5));
    assert!(matches!(monitor.attempted(7, false), AdbChange::Unchanged));
    assert!(!monitor.is_due(7 + 2 * SECOND - 1));
    assert!(monitor.is_due(7 + 2 * SECOND));
    assert!(matches!(monitor.attempted(2 * SECOND, true), AdbChange::Connected));
    assert!(matches!(monitor.attempted(4 * SECOND, true), AdbChange::Unchanged));
    assert!(matches!(monitor.attempted(6 * SECOND, false), AdbChange::Lost));
    monitor.session_ended(7 * SECOND);
    assert!(monitor.is_due(7 * SECOND));
}

#[test]
fn outputs_are_off_before_a_session() {
    let settings = Config::default_in(None, None);
    let mut defaults = settings.clone();
    assert_eq!(outputs_to_switch_off(&settings, &defaults), ["Virtual-1"]);
    defaults.output = "Virtual-2".to_string();
    assert_eq!(outputs_to_switch_off(&settings, &defaults), ["Virtual-1", "Virtual-2"]);
}
