use gingify::commands::config_commands::{
    add_exclusion, apply_config, apply_startup_registry, get_config, merge_document,
    remove_exclusion, run_key, run_value, trigger_welcome_notification, update_config,
    verify_suspend_capable, StartupAction, StartupPhase, StartupReply,
};
use gingify::engine::suspender::SuspenderLookup;
use gingify::json::JsonDocument;
use gingify::state::app_state::AppState;
use gingify::state::config::UserConfig;

fn state() -> AppState {
    AppState::new(UserConfig::default())
}

fn refusal(json: &str) -> String {
    update_config(json, &state()).outcome.unwrap_err()
}

#[test]
fn named_settings_change_and_others_stay() {
    let update = update_config(
        r#"{"theme": "dark", "idle_threshold_secs": 120, "auto_trim_enabled": false, "trim_history_limit": 3,
            "active_profile": "Focus", "hard_suspend_enabled": true, "notifications_enabled": false,
            "first_launch_complete": true, "auto_trim_threshold_pct": 95}"#,
        &state(),
    );
    let config = update.outcome.unwrap();
    assert_eq!(config.theme, "dark");
    assert_eq!(config.idle_threshold_secs, 120);
    assert!(!config.auto_trim_enabled);
    assert_eq!(config.trim_history_limit, 3);
    assert_eq!(config.active_profile, "Focus");
    assert!(config.hard_suspend_enabled);
    assert!(!config.notifications_enabled);
    assert!(config.first_launch_complete);
    assert_eq!(config.auto_trim_threshold_pct, 95);
    assert!(config.start_on_login);
    assert_eq!(config.excluded_processes.len(), 2);
    assert_eq!(update.start_on_login, None);
}

#[test]
fn unknown_settings_are_ignored() {
    let config = update_config(r#"{"colour": 7, "pre_focus_idle_threshold": 5}"#, &state()).outcome.unwrap();
    assert_eq!(config.pre_focus_idle_threshold, None);
    assert_eq!(config.theme, "system");
}

#[test]
fn only_an_object_is_a_change() {
    assert!(refusal("{").starts_with("Invalid JSON: "));
    assert_eq!(refusal("[]"), "Expected a JSON object");
    assert_eq!(refusal("5"), "Expected a JSON object");
    assert!(merge_document(&JsonDocument::Other, &UserConfig::default()).outcome.is_err());
}

#[test]
fn values_out_of_range_are_refused() {
    assert_eq!(
        refusal(r#"{"auto_trim_threshold_pct": 49}"#),
        "Invalid value for auto_trim_threshold_pct: 49 is out of range 50–95"
    );
    assert_eq!(
        refusal(r#"{"auto_trim_threshold_pct": 96}"#),
        "Invalid value for auto_trim_threshold_pct: 96 is out of range 50–95"
    );
    assert_eq!(
        refusal(r#"{"auto_trim_threshold_pct": 300}"#),
        "Invalid value for auto_trim_threshold_pct: 300 is out of range 50–95"
    );
    assert_eq!(
        refusal(r#"{"idle_threshold_secs": 59}"#),
        "Invalid value for idle_threshold_secs: 59 is out of range 60–3600"
    );
    assert_eq!(
        refusal(r#"{"idle_threshold_secs": 3601}"#),
        "Invalid value for idle_threshold_secs: 3601 is out of range 60–3600"
    );
    assert_eq!(refusal(r#"{"theme": "pink"}"#), "Invalid value for theme: must be system, dark, or light");
}

#[test]
fn a_threshold_beyond_eight_bits_is_refused_as_it_stands() {
    let state = state();
    let update = update_config(r#"{"auto_trim_threshold_pct": 306}"#, &state);
    assert_eq!(
        update.outcome.unwrap_err(),
        "Invalid value for auto_trim_threshold_pct: 306 is out of range 50–95"
    );
    assert_eq!(state.config.auto_trim_threshold_pct, 80);
    for (text, pct) in [("50", 50), ("95", 95)] {
        let json = format!("{{\"auto_trim_threshold_pct\": {text}}}");
        assert_eq!(update_config(&json, &state).outcome.unwrap().auto_trim_threshold_pct, pct);
    }
    for text in ["351", "18446744073709551615"] {
        let json = format!("{{\"auto_trim_threshold_pct\": {text}}}");
        assert!(update_config(&json, &state).outcome.is_err());
    }
}

#[test]
fn values_of_the_wrong_type_are_refused() {
    for (key, kind) in [
        ("auto_trim_enabled", "bool"),
        ("auto_trim_threshold_pct", "u8"),
        ("idle_threshold_secs", "u64"),
        ("active_profile", "string"),
        ("hard_suspend_enabled", "bool"),
        ("start_on_login", "bool"),
        ("notifications_enabled", "bool"),
        ("theme", "string"),
        ("trim_history_limit", "usize"),
        ("first_launch_complete", "bool"),
    ] {
        assert_eq!(
            refusal(&format!("{{\"{key}\": null}}")),
            format!("Invalid value for {key}: expected {kind}")
        );
    }
    assert!(refusal(r#"{"idle_threshold_secs": -60}"#).contains("expected u64"));
    assert!(refusal(r#"{"idle_threshold_secs": 60.5}"#).contains("expected u64"));
}

#[test]
fn the_start_up_entry_follows_even_a_change_refused_later() {
    let update = update_config(r#"{"start_on_login": false}"#, &state());
    assert_eq!(update.start_on_login, Some(false));
    assert!(!update.outcome.unwrap().start_on_login);
    let refused = update_config(r#"{"start_on_login": true, "theme": 1}"#, &state());
    assert_eq!(refused.start_on_login, Some(true));
    assert!(refused.outcome.is_err());
    let early = update_config(r#"{"start_on_login": true, "auto_trim_enabled": 1}"#, &state());
    assert_eq!(early.start_on_login, None);
}

#[test]
fn settings_take_effect_once_they_are_saved() {
    let mut s = state();
    let mut config = get_config(&s);
    config.theme = "light".to_string();
    let e = apply_config(&mut s, config.clone(), Err("disk full".to_string())).unwrap_err();
    assert_eq!(e, "Failed to save config: disk full");
    assert_eq!(s.config.theme, "system");
    apply_config(&mut s, config, Ok(())).unwrap();
    assert_eq!(s.config.theme, "light");
}

#[test]
fn exclusions_are_kept_in_lower_case_and_once() {
    let mut s = state();
    let config = add_exclusion("MyTool.EXE", &s).unwrap();
    assert_eq!(config.excluded_processes.last().unwrap(), "mytool.exe");
    assert_eq!(config.excluded_processes.len(), 3);
    s.config = config;
    assert_eq!(add_exclusion("mytool.exe", &s).unwrap().excluded_processes.len(), 3);
    let removed = remove_exclusion("MYTOOL.exe", &s);
    assert_eq!(removed.excluded_processes, UserConfig::default().excluded_processes);
    s.config.excluded_processes = vec!["a".to_string(), "b".to_string(), "a".to_string()];
    assert_eq!(remove_exclusion("A", &s).excluded_processes, vec!["b".to_string()]);
}

#[test]
fn protected_processes_cannot_be_excluded() {
    assert_eq!(
        add_exclusion("Explorer.exe", &state()).unwrap_err(),
        "Cannot exclude protected system process 'explorer.exe'"
    );
    assert!(add_exclusion("secure system", &state()).is_err());
    assert!(add_exclusion("language_server_windows_x64.exe", &state()).is_ok());
}

fn run_startup(enabled: bool, replies: Vec<StartupReply>) -> Vec<StartupAction> {
    let mut phase = StartupPhase::Start;
    replies.into_iter().map(|reply| apply_startup_registry(enabled, &mut phase, reply)).collect()
}

#[test]
fn the_start_up_entry_is_set_or_deleted() {
    let (done, failed) = (StartupReply::Done, StartupReply::Failed);
    assert_eq!(
        run_startup(true, vec![done, done, done, failed, done]),
        vec![
            StartupAction::Open,
            StartupAction::LocateExe,
            StartupAction::SetValue,
            StartupAction::Close,
            StartupAction::Return,
        ]
    );
    assert_eq!(
        run_startup(false, vec![done, done, failed, done]),
        vec![StartupAction::Open, StartupAction::DeleteValue, StartupAction::Close, StartupAction::Return]
    );
    assert_eq!(run_startup(true, vec![done, failed]), vec![StartupAction::Open, StartupAction::Return]);
    assert_eq!(
        run_startup(true, vec![done, done, failed, done]),
        vec![StartupAction::Open, StartupAction::LocateExe, StartupAction::Close, StartupAction::Return]
    );
    assert_eq!(run_key(), "Software\\Microsoft\\Windows\\CurrentVersion\\Run");
    assert_eq!(run_value(), "Gingify");
}

#[test]
fn small_requests_are_answered() {
    assert!(verify_suspend_capable(SuspenderLookup { library: true, suspend: true, resume: true }));
    assert!(!verify_suspend_capable(SuspenderLookup { library: true, suspend: true, resume: false }));
    assert!(trigger_welcome_notification().body.starts_with("Gingify is running."));
}
