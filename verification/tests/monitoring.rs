use gingify::engine::monitor::{
    collect_windowed_pids, compute_cpu, enum_processes, filetime_to_u64, is_browser, is_polled,
    is_protected, is_system_path, poll_cycle, process_name, update_ram_stats, EnumStep, FileTime,
    HighRam, MemoryReading, PollScan, ProcessReading, ProcessTimes, WindowInfo, AUTO_TRIM_COOLDOWN,
    POLL_SECS, POLL_TICKS, TICKS_PER_SEC,
};
use gingify::engine::notifications::{notify_high_ram, HighRamLimiter, HOUR_NANOS};
use gingify::engine::reader::{
    finish_reading, read_process, ProcessReader, ReadAction, ReadPhase, ReadReply,
};
use gingify::state::app_state::{AppState, CpuSample, PressureLevel, Profile};
use gingify::state::config::UserConfig;

const SEC: u64 = 1_000_000_000;

fn ticks(t: u64) -> FileTime {
    FileTime { high: (t >> 32) as u32, low: t as u32 }
}

fn reading(pid: u32, name: &str, bytes: u64, kernel: u64, user: u64, at: u64) -> ProcessReading {
    ProcessReading {
        pid,
        image_path: format!("\\Device\\HarddiskVolume3\\apps\\{name}"),
        win32_path: Some(format!("D:\\apps\\{name}")),
        private_bytes: bytes,
        times: Some(ProcessTimes { kernel: ticks(kernel), user: ticks(user) }),
        icon_data_url: None,
        read_at: at,
    }
}

fn scan(processes: Vec<ProcessReading>, load: u32, now: u64) -> PollScan {
    PollScan {
        processes,
        windows: vec![],
        memory: Some(MemoryReading { total_phys: 16 << 30, avail_phys: 4 << 30, load }),
        interval_ticks: POLL_TICKS,
        now,
    }
}

fn app_window(pid: u32) -> WindowInfo {
    WindowInfo { pid, visible: true, has_owner: false, title_length: 3, ex_style: 0 }
}

#[test]
fn names_and_paths_are_recognised_in_any_case() {
    assert!(is_browser("Chrome.exe"));
    assert!(is_browser("arc.exe"));
    assert!(!is_browser("code.exe"));
    assert!(is_protected("EXPLORER.EXE"));
    assert!(is_protected("Secure System"));
    assert!(is_protected("language_server_windows_x64.exe"));
    assert!(!is_protected("notepad.exe"));
    assert!(is_system_path("C:\\Windows\\System32\\cmd.exe"));
    assert!(is_system_path("C:\\Program Files\\WindowsApps\\x\\y.exe"));
    assert!(is_system_path("D:\\x\\EdgeWebView\\y.exe"));
    assert!(is_system_path("D:\\x\\EdgeWebView2\\y.exe"));
    assert!(!is_system_path("D:\\Windows\\x.exe"));
    assert_eq!(process_name("\\Device\\Disk\\a b.exe"), "a b.exe");
    assert!(!is_polled(4));
    assert!(is_polled(8));
}

#[test]
fn processor_time_is_measured_in_ticks() {
    assert_eq!(POLL_TICKS, POLL_SECS * TICKS_PER_SEC);
    assert_eq!(filetime_to_u64(FileTime { high: 1, low: 2 }), 4_294_967_298);
    assert_eq!(filetime_to_u64(FileTime { high: u32::MAX, low: u32::MAX }), u64::MAX);
    assert_eq!(compute_cpu(10, 0), CpuSample { busy_ticks: 0, interval_ticks: 0 });
    assert_eq!(compute_cpu(10, 100), CpuSample { busy_ticks: 10, interval_ticks: 100 });
    assert_eq!(compute_cpu(500, 100), CpuSample { busy_ticks: 100, interval_ticks: 100 });
}

#[test]
fn only_application_windows_count() {
    let windows = vec![
        app_window(10),
        WindowInfo { visible: false, ..app_window(11) },
        WindowInfo { has_owner: true, ..app_window(12) },
        WindowInfo { title_length: 0, ..app_window(13) },
        WindowInfo { ex_style: 0x80, ..app_window(14) },
        app_window(0),
        WindowInfo { ex_style: 0x8, ..app_window(15) },
    ];
    let mut pids: Vec<u32> = collect_windowed_pids(&windows).into_iter().collect();
    pids.sort();
    assert_eq!(pids, vec![10, 15]);
}

#[test]
fn the_walk_over_windows_ends() {
    let mut windows = vec![app_window(9); 10_001];
    windows.push(app_window(77));
    assert!(!collect_windowed_pids(&windows).contains(&77));
    windows[10_000] = app_window(76);
    assert!(collect_windowed_pids(&windows).contains(&76));
}

#[test]
fn a_full_buffer_is_doubled() {
    assert_eq!(enum_processes(1024, 4 * 1023), EnumStep::Done(1023));
    assert_eq!(enum_processes(1024, 4 * 1024), EnumStep::Grow(2048));
    assert_eq!(enum_processes(1024, 0), EnumStep::Done(0));
}

#[test]
fn memory_figures_are_in_megabytes() {
    let mut state = AppState::new(UserConfig::default());
    update_ram_stats(
        &mut state,
        Some(MemoryReading { total_phys: 16 * 1024 * 1024 * 1024 + 5, avail_phys: 1_048_576 * 3, load: 86 }),
    );
    assert_eq!(state.ram_stats.total_mb, 16384);
    assert_eq!(state.ram_stats.available_mb, 3);
    assert_eq!(state.ram_stats.used_mb, 16381);
    assert_eq!(state.ram_stats.pressure_level, PressureLevel::High);
    let before = state.ram_stats;
    update_ram_stats(&mut state, None);
    assert_eq!(state.ram_stats, before);
}

#[test]
fn a_new_process_counts_as_active() {
    let mut state = AppState::new(UserConfig::default());
    let mut first = reading(10, "app.exe", 500, 70, 30, 5 * SEC);
    first.icon_data_url = Some("data:1".to_string());
    let mut poll = scan(vec![first], 40, 6 * SEC);
    poll.windows = vec![app_window(10)];
    poll_cycle(&mut state, &poll);
    let e = &state.process_map[&10];
    assert_eq!(e.name, "app.exe");
    assert_eq!(e.ram_bytes, 500);
    assert_eq!(e.cpu, CpuSample { busy_ticks: 0, interval_ticks: 0 });
    assert_eq!(e.idle_seconds, 1);
    assert_eq!(e.last_active_at, Some(5 * SEC));
    assert_eq!(e.icon_data_url, Some("data:1".to_string()));
    assert!(e.has_window && !e.is_excluded && !e.is_protected && !e.is_suspended);
    assert_eq!((e.prev_kernel_time, e.prev_user_time), (70, 30));
}

#[test]
fn a_known_process_is_brought_up_to_date() {
    let mut state = AppState::new(UserConfig::default());
    let mut first = reading(10, "app.exe", 500, 100, 100, SEC);
    first.icon_data_url = Some("data:1".to_string());
    poll_cycle(&mut state, &scan(vec![first], 40, SEC));
    let mut second = reading(10, "app.exe", 600, 200, 50, 9 * SEC);
    second.icon_data_url = Some("data:2".to_string());
    poll_cycle(&mut state, &scan(vec![second], 40, 9 * SEC));
    let e = &state.process_map[&10];
    assert_eq!(e.ram_bytes, 600);
    assert_eq!(e.cpu, CpuSample { busy_ticks: 100, interval_ticks: POLL_TICKS });
    assert_eq!(e.idle_seconds, 8);
    assert_eq!(e.icon_data_url, Some("data:1".to_string()));
    let busy = reading(10, "app.exe", 600, 200 + POLL_TICKS, 50, 20 * SEC);
    poll_cycle(&mut state, &scan(vec![busy], 40, 20 * SEC));
    assert_eq!(state.process_map[&10].idle_seconds, 0);
    assert_eq!(state.process_map[&10].last_active_at, Some(20 * SEC));
}

#[test]
fn processes_that_are_gone_are_dropped() {
    let mut state = AppState::new(UserConfig::default());
    let both = vec![reading(10, "a.exe", 1, 0, 0, 0), reading(11, "b.exe", 1, 0, 0, 0), reading(4, "c.exe", 1, 0, 0, 0)];
    poll_cycle(&mut state, &scan(both, 40, 0));
    assert_eq!(state.process_map.len(), 2);
    poll_cycle(&mut state, &scan(vec![reading(11, "b.exe", 1, 0, 0, 0)], 40, 0));
    assert_eq!(state.process_map.keys().copied().collect::<Vec<u32>>(), vec![11]);
}

#[test]
fn exclusion_and_protection_are_applied_in_a_poll() {
    let mut state = AppState::new(UserConfig::default());
    state.config.excluded_processes = vec!["MyTool.exe".to_string()];
    state.suspended_set.insert(13);
    let mut system = reading(12, "SearchApp.exe", 1, 0, 0, 0);
    system.win32_path = Some("C:\\Windows\\SystemApps\\SearchApp.exe".to_string());
    let mut pathless = reading(15, "SearchApp.exe", 1, 0, 0, 0);
    pathless.win32_path = None;
    pathless.times = None;
    let processes = vec![
        reading(10, "mytool.EXE", 1, 0, 0, 0),
        reading(11, "Firefox.exe", 1, 0, 0, 0),
        system,
        reading(13, "frozen.exe", 1, 0, 0, 0),
        reading(14, "lsass.exe", 1, 0, 0, 0),
        pathless,
    ];
    poll_cycle(&mut state, &scan(processes, 40, 0));
    assert!(state.process_map[&10].is_excluded);
    assert!(state.process_map[&11].is_excluded);
    assert!(state.process_map[&12].is_protected && !state.process_map[&12].is_excluded);
    assert!(state.process_map[&13].is_suspended);
    assert!(state.process_map[&14].is_protected);
    assert!(!state.process_map[&15].is_protected);
}

#[test]
fn a_poll_finds_bloat() {
    let mut state = AppState::new(UserConfig::default());
    poll_cycle(&mut state, &scan(vec![reading(10, "Copilot.exe", 123, 0, 0, 0)], 40, 0));
    assert_eq!(state.bloat_list.len(), 5);
    assert_eq!(state.bloat_list[0].ram_bytes, 123);
}

#[test]
fn automatic_trims_wait_a_minute() {
    let mut state = AppState::new(UserConfig::default());
    assert_eq!(poll_cycle(&mut state, &scan(vec![], 79, SEC)).auto_trim, None);
    assert_eq!(poll_cycle(&mut state, &scan(vec![], 80, SEC)).auto_trim, Some(900));
    assert_eq!(state.last_auto_trim_at, Some(SEC));
    let soon = SEC + AUTO_TRIM_COOLDOWN - 1;
    assert_eq!(poll_cycle(&mut state, &scan(vec![], 99, soon)).auto_trim, None);
    assert_eq!(state.last_auto_trim_at, Some(SEC));
    state.active_profile = Profile::Gaming;
    assert_eq!(poll_cycle(&mut state, &scan(vec![], 99, soon + 1)).auto_trim, Some(300));
    state.config.auto_trim_enabled = false;
    assert_eq!(poll_cycle(&mut state, &scan(vec![], 99, soon * 9)).auto_trim, None);
}

#[test]
fn an_automatic_trim_is_announced_where_allowed() {
    let mut state = AppState::new(UserConfig::default());
    assert!(!poll_cycle(&mut state, &scan(vec![], 10, 0)).announce_trim);
    assert!(poll_cycle(&mut state, &scan(vec![], 90, 0)).announce_trim);
    state.config.notifications_enabled = false;
    let silent = poll_cycle(&mut state, &scan(vec![], 90, AUTO_TRIM_COOLDOWN));
    assert!(silent.auto_trim.is_some() && !silent.announce_trim);
}

#[test]
fn a_user_defined_profile_trims_by_the_settings() {
    let mut config = UserConfig::default();
    config.active_profile = "custom".to_string();
    config.idle_threshold_secs = 61;
    let mut state = AppState::new(config);
    assert_eq!(poll_cycle(&mut state, &scan(vec![], 90, 0)).auto_trim, Some(61));
}

#[test]
fn high_pressure_is_warned_of_where_allowed() {
    let mut state = AppState::new(UserConfig::default());
    assert_eq!(poll_cycle(&mut state, &scan(vec![], 84, 0)).high_ram, None);
    assert_eq!(
        poll_cycle(&mut state, &scan(vec![], 85, 0)).high_ram,
        Some(HighRam { pressure_pct: 85, is_critical: false })
    );
    let outcome = poll_cycle(&mut state, &scan(vec![], 95, 0));
    assert_eq!(outcome.high_ram, Some(HighRam { pressure_pct: 95, is_critical: true }));
    assert_eq!(outcome.ram_stats, state.ram_stats);
    state.config.notifications_enabled = false;
    assert_eq!(poll_cycle(&mut state, &scan(vec![], 95, 0)).high_ram, None);
}

#[test]
fn warnings_come_at_most_hourly() {
    let mut limiter = HighRamLimiter::new();
    assert!(notify_high_ram(&mut limiter, 5, 90, false).is_some());
    assert!(notify_high_ram(&mut limiter, 5 + HOUR_NANOS - 1, 99, true).is_none());
    let toast = notify_high_ram(&mut limiter, 5 + HOUR_NANOS, 97, true).unwrap();
    assert!(toast.body.contains("97"), "{}", toast.body);
}

#[test]
fn a_reading_is_kept_without_path_or_times() {
    let mut reader = ProcessReader::new(10);
    let mut run = Vec::new();
    for reply in [
        ReadReply::Begin,
        ReadReply::Opened(true),
        ReadReply::Path(Some("\\Device\\a.exe".to_string())),
        ReadReply::Path(None),
        ReadReply::Memory(Some(42)),
        ReadReply::Times(None),
        ReadReply::Closed,
    ] {
        run.push(read_process(&mut reader, reply));
    }
    assert_eq!(
        run,
        vec![
            ReadAction::Open,
            ReadAction::ReadImagePath,
            ReadAction::ReadWin32Path,
            ReadAction::ReadMemory,
            ReadAction::ReadTimes,
            ReadAction::Close,
            ReadAction::Keep,
        ]
    );
    let kept = finish_reading(reader, Some("icon".to_string()), 7);
    assert_eq!(kept.pid, 10);
    assert_eq!(kept.image_path, "\\Device\\a.exe");
    assert_eq!(kept.win32_path, None);
    assert_eq!(kept.private_bytes, 42);
    assert_eq!(kept.times, None);
    assert_eq!(kept.icon_data_url, Some("icon".to_string()));
    assert_eq!(kept.read_at, 7);
}

#[test]
fn a_reading_without_name_or_memory_is_skipped_and_closed() {
    let mut low = ProcessReader::new(4);
    assert_eq!(read_process(&mut low, ReadReply::Begin), ReadAction::Skip);
    let mut denied = ProcessReader::new(10);
    read_process(&mut denied, ReadReply::Begin);
    assert_eq!(read_process(&mut denied, ReadReply::Opened(false)), ReadAction::Skip);
    let mut nameless = ProcessReader::new(10);
    read_process(&mut nameless, ReadReply::Begin);
    read_process(&mut nameless, ReadReply::Opened(true));
    assert_eq!(read_process(&mut nameless, ReadReply::Path(None)), ReadAction::Close);
    assert_eq!(read_process(&mut nameless, ReadReply::Closed), ReadAction::Skip);
    assert_eq!(nameless.phase, ReadPhase::Returned(false));
    let mut unmeasured = ProcessReader::new(10);
    read_process(&mut unmeasured, ReadReply::Begin);
    read_process(&mut unmeasured, ReadReply::Opened(true));
    read_process(&mut unmeasured, ReadReply::Path(Some("a".to_string())));
    read_process(&mut unmeasured, ReadReply::Path(Some("b".to_string())));
    assert_eq!(read_process(&mut unmeasured, ReadReply::Memory(None)), ReadAction::Close);
    assert_eq!(read_process(&mut unmeasured, ReadReply::Closed), ReadAction::Skip);
}
