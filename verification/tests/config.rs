use gingify::state::config::{ConfigReading, UserConfig};

#[test]
fn a_missing_file_gives_the_defaults() {
    let config = UserConfig::load(ConfigReading::Missing).unwrap();
    assert!(config.auto_trim_enabled);
    assert_eq!(config.auto_trim_threshold_pct, 80);
    assert_eq!(config.idle_threshold_secs, 600);
    assert_eq!(config.active_profile, "Work");
    assert!(!config.hard_suspend_enabled);
    assert_eq!(config.excluded_processes, vec!["code.exe".to_string(), "chrome.exe".to_string()]);
    assert!(config.start_on_login);
    assert!(config.notifications_enabled);
    assert_eq!(config.theme, "system");
    assert_eq!(config.trim_history_limit, 50);
    assert!(!config.first_launch_complete);
    assert_eq!(config.pre_focus_idle_threshold, None);
    assert_eq!(config.pre_focus_hard_suspend, None);
}

#[test]
fn a_corrupt_file_gives_the_defaults() {
    assert_eq!(UserConfig::load(ConfigReading::Corrupt).unwrap().theme, "system");
}

#[test]
fn a_file_that_cannot_be_read_is_an_error() {
    assert_eq!(UserConfig::load(ConfigReading::Unreadable("denied".to_string())).unwrap_err(), "denied");
    assert_eq!(UserConfig::load(ConfigReading::NoLocation("APPDATA".to_string())).unwrap_err(), "APPDATA");
}

#[test]
fn settings_on_disk_are_taken_as_they_are() {
    let mut saved = UserConfig::default();
    saved.theme = "dark".to_string();
    saved.trim_history_limit = 7;
    let config = UserConfig::load(ConfigReading::Parsed(saved)).unwrap();
    assert_eq!(config.theme, "dark");
    assert_eq!(config.clone().trim_history_limit, 7);
}
