use std::collections::HashSet;

use gingify::commands::trim_commands::{
    begin_suspension, require_suspend_allowed, require_suspender, resume_bloat,
    resume_process, suspend_all_bloat, suspend_bloat, suspend_process, suspend_targets,
    SuspendOutcome,
};
use gingify::engine::bloat_scan::{
    bloat_definitions, get_bloat_pids, known_bloat_names, scan_bloat,
};
use gingify::engine::suspender::{
    hard_resume, hard_suspend, load_suspended_set, load_suspender, parsed_set,
    resume_all_suspended, resumes_on_focus, save_suspended_set, PidsReading, ResumeAction, ResumePhase, ResumeReply,
    SuspendAction, SuspendError, SuspendPhase, SuspendReply, SuspenderLookup,
};
use gingify::state::app_state::{AppState, CpuSample, ProcessEntry, Profile};
use gingify::state::config::UserConfig;

fn entry(pid: u32, name: &str, ram_bytes: u64) -> ProcessEntry {
    ProcessEntry {
        pid,
        name: name.to_string(),
        ram_bytes,
        cpu: CpuSample { busy_ticks: 0, interval_ticks: 0 },
        idle_seconds: 0,
        is_suspended: false,
        is_protected: false,
        is_excluded: false,
        has_window: false,
        icon_data_url: None,
        last_active_at: None,
        prev_kernel_time: 0,
        prev_user_time: 0,
    }
}

fn state_with(entries: Vec<ProcessEntry>) -> AppState {
    let mut state = AppState::new(UserConfig::default());
    for e in entries {
        state.process_map.insert(e.pid, e);
    }
    state
}

fn suspend(pid: u32, status: i32, state: &mut AppState) -> Vec<SuspendAction> {
    let mut phase = SuspendPhase::Start;
    let mut run = Vec::new();
    let mut reply = SuspendReply::Begin;
    loop {
        let action = hard_suspend(pid, &mut phase, reply, state);
        run.push(action);
        reply = match action {
            SuspendAction::Open => SuspendReply::Opened(true),
            SuspendAction::Suspend => SuspendReply::Status(status),
            SuspendAction::Close | SuspendAction::SaveSet => SuspendReply::Done,
            SuspendAction::Return(_) => return run,
        };
    }
}

fn resume(pid: u32, alive: bool, opened: bool, status: i32, state: &mut AppState) -> Vec<ResumeAction> {
    let mut phase = ResumePhase::Start;
    let mut run = Vec::new();
    let mut reply = ResumeReply::Begin;
    loop {
        let action = hard_resume(pid, &mut phase, reply, state);
        run.push(action);
        reply = match action {
            ResumeAction::Probe => ResumeReply::Alive(alive),
            ResumeAction::Open => ResumeReply::Opened(opened),
            ResumeAction::Resume => ResumeReply::Status(status),
            ResumeAction::Close | ResumeAction::SaveSet => ResumeReply::Done,
            ResumeAction::Return(_) => return run,
        };
    }
}

#[test]
fn a_suspended_process_is_flagged_and_remembered() {
    let mut state = state_with(vec![entry(9, "a.exe", 1)]);
    let run = suspend(9, 0, &mut state);
    assert_eq!(
        run,
        vec![
            SuspendAction::Open,
            SuspendAction::Suspend,
            SuspendAction::Close,
            SuspendAction::SaveSet,
            SuspendAction::Return(Ok(())),
        ]
    );
    assert!(state.suspended_set.contains(&9));
    assert!(state.process_map[&9].is_suspended);
}

#[test]
fn a_failed_suspension_changes_nothing() {
    let mut state = state_with(vec![entry(9, "a.exe", 1)]);
    let run = suspend(9, -1, &mut state);
    assert_eq!(run.last(), Some(&SuspendAction::Return(Err(SuspendError::SuspendFailed(9, -1)))));
    assert!(run.contains(&SuspendAction::Close));
    assert!(state.suspended_set.is_empty());
    let mut phase = SuspendPhase::Start;
    hard_suspend(9, &mut phase, SuspendReply::Begin, &mut state);
    assert_eq!(
        hard_suspend(9, &mut phase, SuspendReply::Opened(false), &mut state),
        SuspendAction::Return(Err(SuspendError::AccessDenied(9)))
    );
    assert!(!state.process_map[&9].is_suspended);
}

#[test]
fn resuming_takes_a_suspension_back() {
    let mut state = state_with(vec![entry(9, "a.exe", 1)]);
    suspend(9, 0, &mut state);
    let run = resume(9, true, true, 0, &mut state);
    assert_eq!(
        run,
        vec![
            ResumeAction::Probe,
            ResumeAction::Open,
            ResumeAction::Resume,
            ResumeAction::Close,
            ResumeAction::SaveSet,
            ResumeAction::Return(Ok(())),
        ]
    );
    assert!(state.suspended_set.is_empty());
    assert!(!state.process_map[&9].is_suspended);
    assert_eq!(resume(9, true, true, 0, &mut state), vec![ResumeAction::Return(Ok(()))]);
}

#[test]
fn a_dead_process_is_forgotten() {
    let mut state = state_with(vec![]);
    suspend(9, 0, &mut state);
    let run = resume(9, false, true, 0, &mut state);
    assert_eq!(run, vec![ResumeAction::Probe, ResumeAction::SaveSet, ResumeAction::Return(Ok(()))]);
    assert!(state.suspended_set.is_empty());
}

#[test]
fn a_failed_resumption_stays_suspended() {
    let mut state = state_with(vec![entry(9, "a.exe", 1)]);
    suspend(9, 0, &mut state);
    let denied = resume(9, true, false, 0, &mut state);
    assert_eq!(denied.last(), Some(&ResumeAction::Return(Err(SuspendError::AccessDenied(9)))));
    let failed = resume(9, true, true, -5, &mut state);
    assert_eq!(failed.last(), Some(&ResumeAction::Return(Err(SuspendError::ResumeFailed(9, -5)))));
    assert!(state.suspended_set.contains(&9));
    assert!(state.process_map[&9].is_suspended);
}

#[test]
fn resuming_all_leaves_none_suspended() {
    let mut state = state_with(vec![entry(8, "a.exe", 1), entry(9, "b.exe", 1)]);
    for pid in [8, 9, 10] {
        suspend(pid, 0, &mut state);
    }
    let mut plan = resume_all_suspended(&state);
    plan.sort();
    assert_eq!(plan, vec![8, 9, 10]);
    for pid in plan {
        resume(pid, true, true, 0, &mut state);
    }
    assert!(state.suspended_set.is_empty());
    assert!(state.process_map.values().all(|e| !e.is_suspended));
}

#[test]
fn focus_resumes_only_suspended_processes() {
    let mut state = state_with(vec![]);
    state.suspended_set.insert(9);
    state.suspended_set.insert(0);
    assert!(resumes_on_focus(&state, 9));
    assert!(!resumes_on_focus(&state, 10));
    assert!(!resumes_on_focus(&state, 0));
}

#[test]
fn suspend_errors_have_their_texts() {
    assert_eq!(SuspendError::NotAvailable.message(), "NtSuspendProcess not available on this system");
    assert_eq!(SuspendError::AccessDenied(3).message(), "Access denied for PID 3");
    assert_eq!(
        SuspendError::SuspendFailed(3, -1073741790).message(),
        "Suspend failed for PID 3: NTSTATUS 0xc0000022"
    );
    assert_eq!(SuspendError::ResumeFailed(4, -1).message(), "Resume failed for PID 4: NTSTATUS 0xffffffff");
}

#[test]
fn the_set_survives_a_round_trip_through_its_file() {
    let empty: HashSet<u32> = HashSet::new();
    assert_eq!(save_suspended_set(&empty).unwrap(), "[]");
    let one: HashSet<u32> = [4711].into_iter().collect();
    assert_eq!(save_suspended_set(&one).unwrap(), "[\n  4711\n]");
    let many: HashSet<u32> = [1, 2, 3, u32::MAX].into_iter().collect();
    let text = save_suspended_set(&many).unwrap();
    assert_eq!(text.lines().count(), 6);
    assert_eq!(load_suspended_set(&PidsReading::Text(text)), many);
}

#[test]
fn a_file_that_is_no_list_of_ids_gives_an_empty_set() {
    assert!(load_suspended_set(&PidsReading::NoLocation).is_empty());
    assert!(load_suspended_set(&PidsReading::Missing).is_empty());
    assert!(load_suspended_set(&PidsReading::Unreadable).is_empty());
    assert!(load_suspended_set(&PidsReading::Text("{oops".to_string())).is_empty());
    assert!(load_suspended_set(&PidsReading::Text("[-1]".to_string())).is_empty());
    assert!(parsed_set(&None).is_empty());
    assert_eq!(parsed_set(&Some(vec![5, 6])).len(), 2);
    let twice = load_suspended_set(&PidsReading::Text("[7, 7]".to_string()));
    assert_eq!(twice, [7].into_iter().collect::<HashSet<u32>>());
}

#[test]
fn suspending_needs_everything_it_looks_for() {
    let all = SuspenderLookup { library: true, suspend: true, resume: true };
    assert_eq!(load_suspender(all), Ok(()));
    for missing in [
        SuspenderLookup { library: false, ..all },
        SuspenderLookup { suspend: false, ..all },
        SuspenderLookup { resume: false, ..all },
    ] {
        assert_eq!(load_suspender(missing), Err(SuspendError::NotAvailable));
    }
}

#[test]
fn bloat_is_found_in_any_case() {
    let mut state = state_with(vec![
        entry(100, "GAMEBAR.EXE", 10),
        entry(101, "gamebarftserver.exe", 32),
        entry(102, "Widgets.exe", 5),
        entry(103, "other.exe", 1000),
    ]);
    state.suspended_set.insert(102);
    let list = scan_bloat(&state);
    let names: Vec<String> = list.iter().map(|e| e.name.clone()).collect();
    assert_eq!(
        names,
        vec!["Copilot", "Recall (AI Screenshot)", "Xbox Game Bar", "Widgets", "Windows AI Services"]
    );
    assert_eq!(list[2].ram_bytes, 42);
    assert!(!list[2].is_suspended);
    assert_eq!(list[2].exe_names.len(), 3);
    assert_eq!(list[3].ram_bytes, 5);
    assert!(list[3].is_suspended);
    assert_eq!(list[0].ram_bytes, 0);
    assert!(!list[0].is_suspended);
    state.suspended_set.insert(100);
    assert!(!scan_bloat(&state)[2].is_suspended);
    state.suspended_set.insert(101);
    assert!(scan_bloat(&state)[2].is_suspended);
}

#[test]
fn bloat_processes_are_looked_up_by_service() {
    let state = state_with(vec![entry(100, "gamebar.exe", 1), entry(101, "GameBarFTServer.exe", 1)]);
    let mut pids = get_bloat_pids("xbox game BAR", &state);
    pids.sort();
    assert_eq!(pids, vec![100, 101]);
    assert!(get_bloat_pids("Copilot", &state).is_empty());
    assert!(get_bloat_pids("unheard of", &state).is_empty());
    assert_eq!(known_bloat_names()[4], "Windows AI Services");
    assert_eq!(bloat_definitions()[3].description, "Windows news/weather widget panel.");
}

#[test]
fn requests_are_refused_where_nothing_can_be_suspended() {
    let mut state = state_with(vec![entry(100, "gamebar.exe", 1), entry(101, "widgets.exe", 1)]);
    let refusal = "SuspenderContext not available — ntdll resolution failed";
    assert_eq!(require_suspender(&state).unwrap_err(), refusal);
    assert_eq!(require_suspend_allowed(&state).unwrap_err(), refusal);
    assert_eq!(begin_suspension(&state).unwrap_err(), refusal);
    assert_eq!(suspend_targets("Widgets", &state).unwrap_err(), refusal);
    assert_eq!(resume_bloat("Widgets", &state).unwrap_err(), refusal);
    assert_eq!(suspend_all_bloat(&state).unwrap_err(), refusal);
    state.suspender_available = true;
    state.config.hard_suspend_enabled = true;
    assert!(require_suspender(&state).is_ok());
    assert_eq!(suspend_targets("Widgets", &state).unwrap(), vec![101]);
    assert_eq!(resume_bloat("widgets", &state).unwrap(), vec![101]);
    assert_eq!(suspend_all_bloat(&state).unwrap(), vec![100, 101]);
}

#[test]
fn suspending_takes_the_permission_of_the_user_and_resuming_does_not() {
    let mut state = state_with(vec![entry(100, "gamebar.exe", 1), entry(101, "widgets.exe", 1)]);
    state.suspender_available = true;
    assert!(!state.config.hard_suspend_enabled);
    let refusal = "Hard suspend is not allowed — enable it in the settings first";
    assert_eq!(require_suspend_allowed(&state).unwrap_err(), refusal);
    assert_eq!(suspend_targets("Widgets", &state).unwrap_err(), refusal);
    assert_eq!(suspend_all_bloat(&state).unwrap_err(), refusal);
    state.active_profile = Profile::Gaming;
    assert_eq!(begin_suspension(&state).unwrap_err(), refusal);
    assert!(require_suspender(&state).is_ok());
    assert_eq!(resume_bloat("Widgets", &state).unwrap(), vec![101]);
}

#[test]
fn a_single_process_is_suspended_in_gaming_mode_only() {
    let mut state = state_with(vec![entry(100, "a.exe", 1)]);
    state.suspender_available = true;
    state.config.hard_suspend_enabled = true;
    for profile in [Profile::Work, Profile::Focus] {
        state.active_profile = profile;
        assert_eq!(
            begin_suspension(&state).unwrap_err(),
            "Suspending a process requires Gaming Mode"
        );
    }
    state.active_profile = Profile::Gaming;
    assert_eq!(begin_suspension(&state), Ok(SuspendPhase::Start));
}

#[test]
fn resuming_all_leaves_just_what_could_not_be_resumed() {
    let mut state = state_with(vec![
        entry(8, "gone.exe", 1),
        entry(9, "shut.exe", 1),
        entry(10, "stuck.exe", 1),
        entry(11, "fine.exe", 1),
    ]);
    for pid in [8, 9, 10, 11] {
        suspend(pid, 0, &mut state);
    }
    for pid in resume_all_suspended(&state) {
        resume(pid, pid != 8, pid != 9, if pid == 10 { -1 } else { 0 }, &mut state);
    }
    let mut left: Vec<u32> = state.suspended_set.iter().copied().collect();
    left.sort();
    assert_eq!(left, vec![9, 10]);
    assert!(state.process_map[&9].is_suspended);
    assert!(state.process_map[&10].is_suspended);
    assert!(!state.process_map[&8].is_suspended);
    assert!(!state.process_map[&11].is_suspended);
}

#[test]
fn answers_show_the_flag_at_once() {
    let mut state = state_with(vec![entry(9, "a.exe", 1)]);
    suspend(9, 0, &mut state);
    assert!(suspend_process(9, Ok(()), &mut state).is_ok());
    assert!(state.process_map[&9].is_suspended);
    resume(9, true, true, 0, &mut state);
    assert!(resume_process(9, Ok(()), &mut state).is_ok());
    assert!(!state.process_map[&9].is_suspended);
    assert_eq!(
        suspend_process(9, Err(SuspendError::AccessDenied(9)), &mut state).unwrap_err(),
        "Access denied for PID 9"
    );
    assert_eq!(
        resume_process(9, Err(SuspendError::ResumeFailed(9, -1)), &mut state).unwrap_err(),
        "Resume failed for PID 9: NTSTATUS 0xffffffff"
    );
}

#[test]
fn failures_of_a_bloat_suspension_are_listed() {
    let good = SuspendOutcome { pid: 1, outcome: Ok(()) };
    assert!(suspend_bloat("Copilot", &vec![]).is_ok());
    assert!(suspend_bloat("Copilot", &vec![good]).is_ok());
    let outcomes = vec![
        SuspendOutcome { pid: 2, outcome: Err(SuspendError::AccessDenied(2)) },
        good,
        SuspendOutcome { pid: 3, outcome: Err(SuspendError::SuspendFailed(3, -1)) },
    ];
    assert_eq!(
        suspend_bloat("Copilot", &outcomes).unwrap_err(),
        "suspend_bloat \"Copilot\": 2 of 3 PIDs failed — PID 2: Access denied for PID 2; PID 3: Suspend failed for PID 3: NTSTATUS 0xffffffff"
    );
}
