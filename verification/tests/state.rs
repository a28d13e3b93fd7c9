use gingify::state::app_state::{AppState, CustomProfile, PressureLevel, Profile, RamStats};
use gingify::state::config::UserConfig;

#[test]
fn pressure_levels_change_at_their_thresholds() {
    assert_eq!(PressureLevel::from_pct(0), PressureLevel::Low);
    assert_eq!(PressureLevel::from_pct(69), PressureLevel::Low);
    assert_eq!(PressureLevel::from_pct(70), PressureLevel::Medium);
    assert_eq!(PressureLevel::from_pct(84), PressureLevel::Medium);
    assert_eq!(PressureLevel::from_pct(85), PressureLevel::High);
    assert_eq!(PressureLevel::from_pct(94), PressureLevel::High);
    assert_eq!(PressureLevel::from_pct(95), PressureLevel::Critical);
    assert_eq!(PressureLevel::from_pct(100), PressureLevel::Critical);
}

#[test]
fn profiles_are_named_in_any_case() {
    assert_eq!(Profile::from_name("GAMING"), Profile::Gaming);
    assert_eq!(Profile::from_name("Focus"), Profile::Focus);
    assert_eq!(Profile::from_name("custom"), Profile::Custom(CustomProfile::default()));
    assert_eq!(Profile::from_name("Work"), Profile::Work);
    assert_eq!(Profile::from_name("nonsense"), Profile::Work);
}

#[test]
fn profiles_tell_their_settings() {
    assert_eq!(Profile::Work.idle_threshold_secs(), 900);
    assert_eq!(Profile::Gaming.idle_threshold_secs(), 300);
    assert_eq!(Profile::Focus.idle_threshold_secs(), 600);
    assert!(Profile::Gaming.hard_suspend_enabled());
    assert!(!Profile::Work.hard_suspend_enabled());
    assert!(Profile::Gaming.auto_suspend_bloat());
    assert!(!Profile::Focus.auto_suspend_bloat());
    let mut own = CustomProfile::default();
    assert_eq!(own.name, "Custom");
    own.idle_threshold_secs = 42;
    own.use_hard_suspend = true;
    let custom = Profile::Custom(own);
    assert_eq!(custom.idle_threshold_secs(), 42);
    assert!(custom.hard_suspend_enabled());
    assert_eq!(custom.clone(), custom);
}

#[test]
fn a_new_state_follows_the_settings() {
    let mut config = UserConfig::default();
    config.active_profile = "focus".to_string();
    let state = AppState::new(config);
    assert_eq!(state.active_profile, Profile::Focus);
    assert!(state.process_map.is_empty());
    assert!(state.suspended_set.is_empty());
    assert_eq!(state.ram_stats, RamStats::default());
    assert_eq!(state.ram_stats.pressure_level, PressureLevel::Low);
    assert!(state.last_trim_result.is_none());
    assert!(state.session_excluded.is_none());
}
