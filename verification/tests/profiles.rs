use gingify::commands::data_commands::{
    get_bloat_list, get_process_list, get_ram_stats, get_trim_history,
};
use gingify::commands::profile_commands::{get_current_profile, set_profile, ProfileRequest};
use gingify::engine::bloat_scan::scan_bloat;
use gingify::engine::profiles::{
    activate_profile, get_foreground_process_name, profile_to_name, resolve_profile,
    suspend_all_bloat, ProfileSwitch, SwitchAction, SwitchPhase, SwitchReply,
};
use gingify::engine::trimmer::{soft_trim_all, TrimOutcome};
use gingify::state::app_state::{
    AppState, CpuSample, CustomProfile, ProcessEntry, Profile, Timestamp, TrimTrigger,
};
use gingify::state::config::UserConfig;

fn entry(pid: u32, name: &str, ram_bytes: u64, is_protected: bool) -> ProcessEntry {
    ProcessEntry {
        pid,
        name: name.to_string(),
        ram_bytes,
        cpu: CpuSample { busy_ticks: 0, interval_ticks: 0 },
        idle_seconds: 0,
        is_suspended: false,
        is_protected,
        is_excluded: false,
        has_window: false,
        icon_data_url: None,
        last_active_at: None,
        prev_kernel_time: 0,
        prev_user_time: 0,
    }
}

fn state_with(entries: Vec<ProcessEntry>) -> AppState {
    let mut state = AppState::new(UserConfig::default());
    for e in entries {
        state.process_map.insert(e.pid, e);
    }
    state
}

fn switch(state: &mut AppState, target: Profile, elevated: bool, foreground: Option<u32>) -> Vec<String> {
    let mut switch = ProfileSwitch::new(state, target);
    let mut run = Vec::new();
    let mut reply = SwitchReply::Done;
    loop {
        let action = activate_profile(&mut switch, reply, state);
        run.push(format!("{action:?}"));
        reply = match action {
            SwitchAction::CheckElevation => SwitchReply::Elevated(elevated),
            SwitchAction::FindForeground => SwitchReply::Foreground(foreground),
            SwitchAction::Return(_) => {
                assert_eq!(switch.phase, SwitchPhase::Returned);
                return run;
            }
            _ => SwitchReply::Done,
        };
    }
}

#[test]
fn profiles_resolve_to_their_settings() {
    let gaming = resolve_profile(&Profile::Gaming);
    assert_eq!(
        (gaming.idle_threshold_secs, gaming.use_hard_suspend, gaming.suspend_bloat_on_activate, gaming.auto_trim_threshold_pct),
        (300, true, true, 60)
    );
    assert_eq!(resolve_profile(&Profile::Work).auto_trim_threshold_pct, 80);
    assert_eq!(resolve_profile(&Profile::Work).idle_threshold_secs, 900);
    assert_eq!(resolve_profile(&Profile::Focus).auto_trim_threshold_pct, 75);
    let mut own = CustomProfile::default();
    own.idle_threshold_secs = 77;
    own.use_hard_suspend = true;
    let custom = resolve_profile(&Profile::Custom(own));
    assert_eq!((custom.idle_threshold_secs, custom.use_hard_suspend), (77, true));
    assert!(!custom.suspend_bloat_on_activate);
}

#[test]
fn built_in_profiles_are_found_under_their_names() {
    for profile in [Profile::Work, Profile::Gaming, Profile::Focus, Profile::Custom(CustomProfile::default())] {
        assert_eq!(Profile::from_name(&profile_to_name(&profile)), profile);
    }
}

#[test]
fn gaming_is_refused_without_privileges() {
    let mut state = state_with(vec![]);
    let run = switch(&mut state, Profile::Gaming, false, None);
    assert_eq!(
        run,
        vec![
            "CheckElevation".to_string(),
            "Return(Err(\"Gaming Mode requires administrator privileges (hard suspend is always enabled)\"))".to_string(),
        ]
    );
    assert_eq!(state.active_profile, Profile::Work);
    assert_eq!(state.config.active_profile, "Work");
}

#[test]
fn gaming_trims_and_suspends_and_leaving_it_resumes() {
    let mut state = state_with(vec![]);
    let run = switch(&mut state, Profile::Gaming, true, None);
    assert_eq!(
        run,
        vec!["CheckElevation", "SaveConfig", "SoftTrim(300, GamingMode)", "SuspendAllBloat", "Return(Ok(()))"]
    );
    assert_eq!(state.active_profile, Profile::Gaming);
    assert_eq!(state.config.active_profile, "Gaming");
    let run = switch(&mut state, Profile::Work, true, None);
    assert_eq!(run, vec!["SaveConfig", "ResumeAll", "Return(Ok(()))"]);
    assert_eq!(state.active_profile, Profile::Work);
}

#[test]
fn focus_puts_settings_aside_and_gives_them_back() {
    let mut state = state_with(vec![entry(10, "editor.exe", 1, false)]);
    state.config.idle_threshold_secs = 1234;
    state.config.hard_suspend_enabled = true;
    let run = switch(&mut state, Profile::Focus, false, Some(10));
    assert_eq!(run, vec!["SaveConfig", "FindForeground", "SoftTrim(600, Manual)", "Return(Ok(()))"]);
    assert_eq!(state.config.idle_threshold_secs, 600);
    assert!(!state.config.hard_suspend_enabled);
    assert_eq!(state.session_excluded, Some("editor.exe".to_string()));
    switch(&mut state, Profile::Focus, false, None);
    switch(&mut state, Profile::Focus, false, None);
    assert_eq!(state.config.pre_focus_idle_threshold, Some(1234));
    assert_eq!(state.session_excluded, None);
    let run = switch(&mut state, Profile::Work, false, None);
    assert_eq!(run, vec!["SaveConfig", "SaveConfig", "Return(Ok(()))"]);
    assert_eq!(state.config.idle_threshold_secs, 1234);
    assert!(state.config.hard_suspend_enabled);
    assert_eq!(state.config.pre_focus_idle_threshold, None);
    assert_eq!(state.config.pre_focus_hard_suspend, None);
}

#[test]
fn a_session_that_never_left_focus_keeps_what_it_put_aside() {
    let mut state = state_with(vec![]);
    state.config.idle_threshold_secs = 600;
    state.config.pre_focus_idle_threshold = Some(90);
    state.config.pre_focus_hard_suspend = Some(true);
    switch(&mut state, Profile::Focus, false, None);
    switch(&mut state, Profile::Work, false, None);
    assert_eq!(state.config.idle_threshold_secs, 90);
    assert!(state.config.hard_suspend_enabled);
}

#[test]
fn leaving_focus_restores_where_nothing_can_be_suspended() {
    let mut state = state_with(vec![entry(10, "editor.exe", 1, false)]);
    state.config.idle_threshold_secs = 1234;
    state.config.hard_suspend_enabled = true;
    switch(&mut state, Profile::Focus, false, Some(10));
    assert!(matches!(set_profile("focus", &mut state), ProfileRequest::Switched));
    assert_eq!(state.session_excluded, Some("editor.exe".to_string()));
    assert_eq!(state.config.idle_threshold_secs, 600);
    assert!(matches!(set_profile("WORK", &mut state), ProfileRequest::Switched));
    assert_eq!(state.active_profile, Profile::Work);
    assert_eq!(state.config.active_profile, "WORK");
    assert_eq!(state.session_excluded, None);
    assert_eq!(state.config.idle_threshold_secs, 1234);
    assert!(state.config.hard_suspend_enabled);
    assert_eq!(state.config.pre_focus_idle_threshold, None);
    assert_eq!(state.config.pre_focus_hard_suspend, None);
}

#[test]
fn the_foreground_process_is_looked_up() {
    let state = state_with(vec![entry(10, "editor.exe", 1, false), entry(0, "idle", 1, false)]);
    assert_eq!(get_foreground_process_name(&state, Some(10)), Some("editor.exe".to_string()));
    assert_eq!(get_foreground_process_name(&state, Some(11)), None);
    assert_eq!(get_foreground_process_name(&state, Some(0)), None);
    assert_eq!(get_foreground_process_name(&state, None), None);
}

#[test]
fn all_bloat_is_planned_category_by_category() {
    let state = state_with(vec![
        entry(30, "widgets.exe", 1, false),
        entry(31, "copilot.exe", 1, false),
        entry(32, "notepad.exe", 1, false),
    ]);
    assert_eq!(suspend_all_bloat(&state), vec![31, 30]);
}

#[test]
fn a_profile_is_set_by_name() {
    let mut state = state_with(vec![]);
    assert!(matches!(set_profile("gaming", &mut state), ProfileRequest::Switched));
    assert_eq!(state.active_profile, Profile::Gaming);
    assert_eq!(state.config.active_profile, "gaming");
    assert_eq!(get_current_profile(&state), "Gaming");
    state.suspender_available = true;
    let request = set_profile("FOCUS", &mut state);
    assert!(matches!(request, ProfileRequest::Activate(Profile::Focus)));
    assert_eq!(state.active_profile, Profile::Gaming);
}

#[test]
fn the_process_list_shows_the_largest_twenty() {
    let entries: Vec<ProcessEntry> = (0..30u32).map(|i| entry(100 + i, "a.exe", i as u64, i % 2 == 1)).collect();
    let state = state_with(entries);
    let plain = get_process_list(None, &state);
    let rams: Vec<u64> = plain.iter().map(|e| e.ram_bytes).collect();
    assert_eq!(rams, (0..15u64).rev().map(|i| 2 * i).collect::<Vec<u64>>());
    assert_eq!(get_process_list(Some(false), &state).len(), 15);
    let all = get_process_list(Some(true), &state);
    let rams: Vec<u64> = all.iter().map(|e| e.ram_bytes).collect();
    assert_eq!(rams, vec![28, 26, 24, 22, 20, 18, 16, 14, 12, 10, 29, 27, 25, 23, 21, 19, 17, 15, 13, 11]);
}

#[test]
fn figures_are_handed_out_as_they_are() {
    let mut state = state_with(vec![entry(30, "widgets.exe", 7, false)]);
    state.bloat_list = scan_bloat(&state);
    let outcomes = vec![TrimOutcome { pid: 1, name: "a".to_string(), freed: Ok(5) }];
    soft_trim_all(&mut state, &outcomes, TrimTrigger::Manual, Timestamp { secs: 1, nanos: 2 });
    assert_eq!(get_bloat_list(&state)[3].ram_bytes, 7);
    assert_eq!(get_trim_history(&state)[0].result.freed_bytes, 5);
    for i in 6..9u64 {
        let outcomes = vec![TrimOutcome { pid: 1, name: "a".to_string(), freed: Ok(i) }];
        soft_trim_all(&mut state, &outcomes, TrimTrigger::Manual, Timestamp { secs: i, nanos: 0 });
    }
    state.config.trim_history_limit = 2;
    let freed: Vec<u64> = get_trim_history(&state).iter().map(|e| e.result.freed_bytes).collect();
    assert_eq!(freed, vec![7, 8]);
    assert_eq!(get_ram_stats(&state), state.ram_stats);
}
