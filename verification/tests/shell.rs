use std::collections::HashSet;

use gingify::engine::notifications::{
    gigabytes, notify_gaming_mode_off, notify_gaming_mode_on, notify_process_resumed,
};
use gingify::shell::{
    activation_window, crash_line, needs_rotation, open_detail_window_tab, popup_position,
    profile_checks, safe_quit, start, tray_command, tray_menu, MenuEntry, PopupSizes, QuitAction,
    TrayCommand, WindowAction, FREE_RAM_IDLE_SECS,
};
use gingify::state::app_state::{CustomProfile, Profile};
use gingify::state::config::UserConfig;

#[test]
fn a_log_is_put_aside_above_five_megabytes() {
    assert!(!needs_rotation(5 * 1024 * 1024));
    assert!(needs_rotation(5 * 1024 * 1024 + 1));
    assert_eq!(crash_line(1700000000, "boom"), "[1700000000] PANIC: boom\n");
}

#[test]
fn start_up_takes_in_what_an_earlier_session_left() {
    let orphans: HashSet<u32> = [5].into_iter().collect();
    let startup = start(Err("gone".to_string()), vec![], orphans, true);
    assert!(startup.resume_orphans);
    assert!(startup.show_onboarding);
    assert!(startup.state.suspended_set.contains(&5));
    assert!(startup.state.suspender_available);
    assert_eq!(startup.state.config.theme, "system");
    let mut config = UserConfig::default();
    config.first_launch_complete = true;
    config.active_profile = "Gaming".to_string();
    let startup = start(Ok(config), vec![], HashSet::new(), false);
    assert!(!startup.resume_orphans);
    assert!(!startup.show_onboarding);
    assert_eq!(startup.state.active_profile, Profile::Gaming);
}

#[test]
fn the_active_profile_is_checked_in_the_menu() {
    let menu = tray_menu(&Profile::Gaming);
    assert_eq!(menu.len(), 12);
    assert_eq!(menu[0], MenuEntry::Plain("free_now", "Free RAM Now"));
    assert_eq!(menu[2], MenuEntry::Check("profile_work", "Work", false));
    assert_eq!(menu[3], MenuEntry::Check("profile_gaming", "Gaming", true));
    assert_eq!(menu[11], MenuEntry::Plain("quit", "Quit Gingify"));
    let checks = profile_checks(&Profile::Custom(CustomProfile::default()));
    assert!(!checks.work && !checks.gaming && !checks.focus);
    assert!(profile_checks(&Profile::Focus).focus);
    assert!(profile_checks(&Profile::Work).work);
}

#[test]
fn every_entry_of_the_menu_has_its_command() {
    for item in tray_menu(&Profile::Work) {
        let id = match item {
            MenuEntry::Plain(id, _) => id,
            MenuEntry::Check(id, _, _) => id,
            MenuEntry::Separator => continue,
        };
        assert!(!matches!(tray_command(id), TrayCommand::Ignore), "{id}");
    }
    assert!(matches!(tray_command("free_now"), TrayCommand::FreeRam));
    assert!(matches!(tray_command("profile_focus"), TrayCommand::SwitchTo(Profile::Focus)));
    assert!(matches!(tray_command("open_detail"), TrayCommand::OpenDetail));
    assert!(matches!(tray_command("settings"), TrayCommand::OpenSettings));
    assert!(matches!(tray_command("check_updates"), TrayCommand::CheckUpdates));
    assert!(matches!(tray_command("quit"), TrayCommand::Quit));
    assert!(matches!(tray_command("other"), TrayCommand::Ignore));
    assert_eq!(FREE_RAM_IDLE_SECS, 30);
}

#[test]
fn the_popup_stands_above_the_task_bar() {
    let sizes = PopupSizes { popup_width: 380, popup_height: 480, margin: 12, taskbar_height: 48 };
    assert_eq!(popup_position(1920, 1080, sizes), (1528, 540));
    assert_eq!(popup_position(100, 100, sizes), (-292, -440));
}

#[test]
fn windows_are_shown_in_order() {
    assert_eq!(activation_window(true, true), Some("popup"));
    assert_eq!(activation_window(false, true), Some("detail"));
    assert_eq!(activation_window(false, false), None);
    assert_eq!(
        open_detail_window_tab(),
        vec![WindowAction::ShowDetail, WindowAction::SwitchTab, WindowAction::HidePopup]
    );
}

#[test]
fn the_way_out_resumes_before_it_forgets() {
    assert_eq!(
        safe_quit(true),
        vec![QuitAction::ResumeAll, QuitAction::ClearSavedSet, QuitAction::SaveConfig, QuitAction::Exit]
    );
    assert_eq!(safe_quit(false), vec![QuitAction::ClearSavedSet, QuitAction::SaveConfig, QuitAction::Exit]);
}

#[test]
fn notifications_have_their_texts() {
    assert_eq!(gigabytes(1_610_612_736), "1.5");
    assert_eq!(gigabytes(0), "0.0");
    assert_eq!(gigabytes(u64::MAX), "17179869184.0");
    assert!(notify_gaming_mode_on(1_610_612_736).body.contains("1.5"));
    assert_eq!(notify_gaming_mode_off().body, "Gaming Mode off — apps restored");
    assert_eq!(notify_process_resumed("a.exe").body, "[a.exe] has been woken up");
}
