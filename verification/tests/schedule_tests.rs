use display_dj::config::NightModeSchedule;
use display_dj::schedule::{is_night_time, night_mode_action, parse_time_minutes, time_minutes_fit, NightModeAction};

#[test]
fn test_parse_time_minutes_valid() {
    assert_eq!(parse_time_minutes("00:00"), Some(0));
    assert_eq!(parse_time_minutes("07:00"), Some(420));
    assert_eq!(parse_time_minutes("12:30"), Some(750));
    assert_eq!(parse_time_minutes("21:00"), Some(1260));
    assert_eq!(parse_time_minutes("23:59"), Some(1439));
}

#[test]
fn test_parse_time_minutes_single_digits() {
    assert_eq!(parse_time_minutes("0:0"), Some(0));
    assert_eq!(parse_time_minutes("9:5"), Some(545));
}

#[test]
fn test_parse_time_minutes_invalid() {
    assert_eq!(parse_time_minutes(""), None);
    assert_eq!(parse_time_minutes("invalid"), None);
    assert_eq!(parse_time_minutes("12"), None);
    assert_eq!(parse_time_minutes("12:ab"), None);
    assert_eq!(parse_time_minutes("ab:30"), None);
    assert_eq!(parse_time_minutes("12:30:00"), None);
}

#[test]
fn test_is_night_time_wraps_midnight() {
    let night = 1260;
    let day = 420;
    assert!(is_night_time(night, day, 1260));
    assert!(is_night_time(night, day, 1400));
    assert!(is_night_time(night, day, 0));
    assert!(is_night_time(night, day, 300));
    assert!(is_night_time(night, day, 419));
    assert!(!is_night_time(night, day, 420));
    assert!(!is_night_time(night, day, 720));
    assert!(!is_night_time(night, day, 1200));
    assert!(!is_night_time(night, day, 1259));
}

#[test]
fn test_is_night_time_no_midnight_wrap() {
    let night = 120;
    let day = 480;
    assert!(is_night_time(night, day, 120));
    assert!(is_night_time(night, day, 300));
    assert!(is_night_time(night, day, 479));
    assert!(!is_night_time(night, day, 480));
    assert!(!is_night_time(night, day, 720));
    assert!(!is_night_time(night, day, 0));
    assert!(!is_night_time(night, day, 119));
    assert!(!is_night_time(night, day, 1260));
}

#[test]
fn test_is_night_time_same_start() {
    assert!(!is_night_time(420, 420, 0));
    assert!(!is_night_time(420, 420, 420));
    assert!(!is_night_time(420, 420, 1000));
}

// ---- further cases

#[test]
fn parse_time_accepts_out_of_range_parts() {
    assert_eq!(parse_time_minutes("25:99"), Some(25 * 60 + 99));
    assert_eq!(parse_time_minutes("+1:+2"), Some(62));
    assert_eq!(parse_time_minutes(" 1:2"), None);
    assert!(time_minutes_fit("23:59"));
    assert!(!time_minutes_fit("4294967295:0"));
    assert!(time_minutes_fit("nonsense"));
}

fn schedule(enabled: bool) -> NightModeSchedule {
    let mut s = NightModeSchedule::default();
    s.enabled = enabled;
    s.night_start = "21:00".into();
    s.day_start = "07:00".into();
    s.night_brightness = 3;
    s.day_brightness = 100;
    s
}

#[test]
fn disabled_schedule_does_nothing() {
    assert!(matches!(night_mode_action(&schedule(false), 1300, 10), NightModeAction::Nothing));
}

#[test]
fn unparsable_start_does_nothing() {
    let mut s = schedule(true);
    s.day_start = "7am".into();
    assert!(matches!(night_mode_action(&s, 1300, 10), NightModeAction::Nothing));
}

#[test]
fn night_without_commands_dims_and_darkens_with_floor() {
    match night_mode_action(&schedule(true), 1300, 10) {
        NightModeAction::SetBrightnessAndTheme { is_night, brightness, dark } => {
            assert!(is_night);
            assert_eq!(brightness, 10);
            assert!(dark);
        }
        _ => panic!("expected the default night behavior"),
    }
    match night_mode_action(&schedule(true), 600, 10) {
        NightModeAction::SetBrightnessAndTheme { is_night, brightness, dark } => {
            assert!(!is_night);
            assert_eq!(brightness, 100);
            assert!(!dark);
        }
        _ => panic!("expected the default day behavior"),
    }
}

#[test]
fn custom_commands_replace_the_default() {
    let mut s = schedule(true);
    s.night_commands = vec!["command/changeVolume/0".into()];
    match night_mode_action(&s, 100, 10) {
        NightModeAction::RunCommands { is_night, commands } => {
            assert!(is_night);
            assert_eq!(commands, vec!["command/changeVolume/0".to_string()]);
        }
        _ => panic!("expected the custom commands"),
    }
}
