use gingify::commands::trim_commands::{bloat_outcome, trim_all, trim_bloat, trim_process};
use gingify::engine::notifications::notify_trim_result;
use gingify::engine::profiler::{get_idle_processes, update_idle_times, NANOS_PER_SEC};
use gingify::engine::trimmer::{
    load_history, soft_trim, soft_trim_all, tally, trim_plan, HistoryReading, TrimAction, TrimError,
    TrimOutcome, TrimPhase, TrimReply,
};
use gingify::state::app_state::{
    AppState, CpuSample, CustomProfile, ProcessEntry, Profile, Timestamp, TrimEvent, TrimResult,
    TrimTrigger,
};
use gingify::state::config::UserConfig;

fn entry(pid: u32, name: &str, ram_bytes: u64, idle_seconds: u64) -> ProcessEntry {
    ProcessEntry {
        pid,
        name: name.to_string(),
        ram_bytes,
        cpu: CpuSample { busy_ticks: 0, interval_ticks: 50_000_000 },
        idle_seconds,
        is_suspended: false,
        is_protected: false,
        is_excluded: false,
        has_window: false,
        icon_data_url: None,
        last_active_at: Some(0),
        prev_kernel_time: 0,
        prev_user_time: 0,
    }
}

fn state_with(entries: Vec<ProcessEntry>) -> AppState {
    let mut state = AppState::new(UserConfig::default());
    for e in entries {
        state.process_map.insert(e.pid, e);
    }
    state
}

fn outcome(pid: u32, name: &str, freed: Result<u64, TrimError>) -> TrimOutcome {
    TrimOutcome { pid, name: name.to_string(), freed }
}

fn at(secs: u64) -> Timestamp {
    Timestamp { secs, nanos: 0 }
}

fn run_trim(pid: u32, replies: Vec<TrimReply>) -> Vec<TrimAction> {
    let mut phase = TrimPhase::Start;
    replies.into_iter().map(|reply| soft_trim(pid, &mut phase, reply)).collect()
}

#[test]
fn a_trim_frees_what_the_working_set_shrank_by() {
    let run = run_trim(
        9,
        vec![
            TrimReply::Begin,
            TrimReply::Opened(true),
            TrimReply::WorkingSet(Some(1000)),
            TrimReply::Emptied(Ok(())),
            TrimReply::WorkingSet(Some(300)),
            TrimReply::Closed,
        ],
    );
    assert_eq!(
        run,
        vec![
            TrimAction::Open,
            TrimAction::Measure,
            TrimAction::Empty,
            TrimAction::Measure,
            TrimAction::Close,
            TrimAction::Return(Ok(700)),
        ]
    );
}

#[test]
fn a_grown_working_set_frees_nothing_and_an_unknown_one_all() {
    let replies = |after| {
        vec![
            TrimReply::Begin,
            TrimReply::Opened(true),
            TrimReply::WorkingSet(Some(1000)),
            TrimReply::Emptied(Ok(())),
            TrimReply::WorkingSet(after),
            TrimReply::Closed,
        ]
    };
    assert_eq!(run_trim(9, replies(Some(1500))).last(), Some(&TrimAction::Return(Ok(0))));
    assert_eq!(run_trim(9, replies(None)).last(), Some(&TrimAction::Return(Ok(1000))));
}

#[test]
fn a_failed_trim_closes_what_it_opened() {
    assert_eq!(
        run_trim(9, vec![TrimReply::Begin, TrimReply::Opened(false)]),
        vec![TrimAction::Open, TrimAction::Return(Err(TrimError::AccessDenied(9)))]
    );
    assert_eq!(
        run_trim(
            9,
            vec![TrimReply::Begin, TrimReply::Opened(true), TrimReply::WorkingSet(None), TrimReply::Closed],
        ),
        vec![
            TrimAction::Open,
            TrimAction::Measure,
            TrimAction::Close,
            TrimAction::Return(Err(TrimError::AccessDenied(9))),
        ]
    );
    let run = run_trim(
        9,
        vec![
            TrimReply::Begin,
            TrimReply::Opened(true),
            TrimReply::WorkingSet(Some(5)),
            TrimReply::Emptied(Err(87)),
            TrimReply::Closed,
        ],
    );
    assert_eq!(run[3], TrimAction::Close);
    assert_eq!(run[4], TrimAction::Return(Err(TrimError::TrimFailed(9, 87))));
}

#[test]
fn trim_errors_have_their_texts() {
    assert_eq!(TrimError::AccessDenied(12).message(), "Access denied for PID 12");
    assert_eq!(TrimError::TrimFailed(12, 5).message(), "Trim failed for PID 12: 5");
    assert_eq!(TrimError::ProcessGone(7).message(), "Process not found: PID 7");
}

#[test]
fn idle_time_runs_on_until_there_is_activity() {
    let mut idle = entry(10, "idle.exe", 1, 0);
    idle.last_active_at = Some(2 * NANOS_PER_SEC);
    let mut busy = entry(11, "busy.exe", 1, 99);
    busy.cpu = CpuSample { busy_ticks: 250_001, interval_ticks: 50_000_000 };
    let mut barely = entry(12, "barely.exe", 1, 0);
    barely.cpu = CpuSample { busy_ticks: 250_000, interval_ticks: 50_000_000 };
    let mut unknown = entry(13, "unknown.exe", 1, 5);
    unknown.last_active_at = None;
    let mut state = state_with(vec![idle, busy, barely, unknown]);
    update_idle_times(&mut state, 10 * NANOS_PER_SEC + 999_999_999);
    assert_eq!(state.process_map[&10].idle_seconds, 8);
    assert_eq!(state.process_map[&11].idle_seconds, 0);
    assert_eq!(state.process_map[&11].last_active_at, Some(10 * NANOS_PER_SEC + 999_999_999));
    assert_eq!(state.process_map[&12].idle_seconds, 10);
    assert_eq!(state.process_map[&13].idle_seconds, 0);
}

#[test]
fn candidates_come_largest_first() {
    let mut protected = entry(20, "lsass.exe", 900, 700);
    protected.is_protected = true;
    let mut excluded = entry(21, "code.exe", 800, 700);
    excluded.is_excluded = true;
    let mut suspended = entry(22, "frozen.exe", 700, 700);
    suspended.is_suspended = true;
    let state = state_with(vec![
        entry(23, "small.exe", 10, 600),
        entry(24, "large.exe", 500, 601),
        entry(25, "active.exe", 999, 599),
        protected,
        excluded,
        suspended,
    ]);
    let pids: Vec<u32> = get_idle_processes(&state, 600).iter().map(|e| e.pid).collect();
    assert_eq!(pids, vec![24, 23]);
}

#[test]
fn a_plan_spares_excluded_and_session_names() {
    let mut state = state_with(vec![
        entry(30, "Code.exe", 5, 700),
        entry(31, "Game.EXE", 4, 700),
        entry(32, "other.exe", 3, 700),
    ]);
    state.session_excluded = Some("game.exe".to_string());
    let names: Vec<String> = trim_plan(&state, 600).iter().map(|e| e.name.clone()).collect();
    assert_eq!(names, vec!["other.exe".to_string()]);
    state.session_excluded = None;
    assert_eq!(trim_plan(&state, 600).len(), 2);
    assert_eq!(trim_plan(&state, 701).len(), 0);
}

#[test]
fn a_plan_spares_what_a_profile_excludes() {
    let mut state = state_with(vec![entry(30, "Studio.exe", 5, 700), entry(31, "other.exe", 3, 700)]);
    let mut own = CustomProfile::default();
    own.excluded_apps = vec!["STUDIO.EXE".to_string()];
    state.active_profile = Profile::Custom(own);
    let pids: Vec<u32> = trim_plan(&state, 600).iter().map(|e| e.pid).collect();
    assert_eq!(pids, vec![31]);
    state.active_profile = Profile::Work;
    assert_eq!(trim_plan(&state, 600).len(), 2);
}

#[test]
fn a_summary_counts_what_succeeded() {
    let outcomes = vec![
        outcome(1, "a.exe", Ok(100)),
        outcome(2, "b.exe", Err(TrimError::AccessDenied(2))),
        outcome(3, "c.exe", Ok(0)),
        outcome(4, "d.exe", Ok(50)),
    ];
    let result = tally(&outcomes, at(77));
    assert_eq!(result.freed_bytes, 150);
    assert_eq!(result.processes_trimmed, 3);
    assert_eq!(result.unique_pids, vec![1, 3, 4]);
    assert_eq!(result.timestamp, at(77));
    let records: Vec<(String, u64)> =
        result.per_process.iter().map(|r| (r.name.clone(), r.freed_bytes)).collect();
    assert_eq!(records, vec![("a.exe".to_string(), 100), ("d.exe".to_string(), 50)]);
}

#[test]
fn the_history_keeps_the_newest_entries() {
    let mut state = state_with(vec![]);
    state.config.trim_history_limit = 2;
    for i in 1..=3u64 {
        soft_trim_all(&mut state, &vec![outcome(1, "a.exe", Ok(i))], TrimTrigger::Auto, at(i));
    }
    let freed: Vec<u64> = state.trim_history.iter().map(|e| e.result.freed_bytes).collect();
    assert_eq!(freed, vec![2, 3]);
    assert_eq!(state.trim_history[1].trigger, TrimTrigger::Auto);
    state.config.trim_history_limit = 0;
    soft_trim_all(&mut state, &vec![outcome(1, "a.exe", Ok(9))], TrimTrigger::GamingMode, at(4));
    assert_eq!(state.trim_history.len(), 1);
    assert_eq!(state.trim_history[0].result.freed_bytes, 9);
}

#[test]
fn an_empty_trim_enters_no_history_but_is_the_last_one() {
    let mut state = state_with(vec![]);
    let result = soft_trim_all(&mut state, &vec![], TrimTrigger::Manual, at(5));
    assert_eq!(result.processes_trimmed, 0);
    assert!(state.trim_history.is_empty());
    assert_eq!(state.last_trim_result.as_ref().unwrap().timestamp, at(5));
    soft_trim_all(&mut state, &vec![outcome(3, "c.exe", Ok(0))], TrimTrigger::Manual, at(6));
    assert_eq!(state.trim_history.len(), 1);
}

#[test]
fn a_history_that_cannot_be_read_is_empty() {
    assert!(load_history(HistoryReading::NoLocation).is_empty());
    assert!(load_history(HistoryReading::Missing).is_empty());
    assert!(load_history(HistoryReading::Unreadable).is_empty());
    assert!(load_history(HistoryReading::Corrupt).is_empty());
    let event = TrimEvent { result: tally(&vec![], at(1)), trigger: TrimTrigger::Manual };
    assert_eq!(load_history(HistoryReading::Parsed(vec![event])).len(), 1);
}

#[test]
fn requests_to_trim_name_their_cause() {
    let mut state = state_with(vec![]);
    assert_eq!(trim_all(Some("auto"), &state), (TrimTrigger::Auto, 900));
    assert_eq!(trim_all(Some("Auto"), &state), (TrimTrigger::Auto, 900));
    assert_eq!(trim_all(Some("gaming"), &state), (TrimTrigger::GamingMode, 900));
    assert_eq!(trim_all(Some("GamingMode"), &state), (TrimTrigger::GamingMode, 900));
    assert_eq!(trim_all(Some("ManualIdle"), &state), (TrimTrigger::Manual, 900));
    assert_eq!(trim_all(Some("manual_idle"), &state), (TrimTrigger::Manual, 900));
    assert_eq!(trim_all(Some("AUTO"), &state), (TrimTrigger::Manual, 900));
    assert_eq!(trim_all(None, &state), (TrimTrigger::Manual, 900));
    state.config.idle_threshold_secs = 77;
    state.active_profile = Profile::Gaming;
    assert_eq!(trim_all(None, &state), (TrimTrigger::Manual, 300));
    state.active_profile = Profile::Focus;
    assert_eq!(trim_all(Some("auto"), &state), (TrimTrigger::Auto, 600));
    let own = CustomProfile { idle_threshold_secs: 120, ..CustomProfile::default() };
    state.active_profile = Profile::Custom(own);
    assert_eq!(trim_all(None, &state), (TrimTrigger::Manual, 120));
}

#[test]
fn a_single_trim_corrects_the_memory_and_enters_the_history() {
    let mut state = state_with(vec![entry(40, "a.exe", 1000, 0)]);
    let result: TrimResult = trim_process(40, Ok(300), at(1), &mut state).unwrap();
    assert_eq!(result.unique_pids, vec![40]);
    assert_eq!(result.processes_trimmed, 1);
    assert!(result.per_process.is_empty());
    assert_eq!(state.process_map[&40].ram_bytes, 700);
    trim_process(40, Ok(5000), at(2), &mut state).unwrap();
    assert_eq!(state.process_map[&40].ram_bytes, 0);
    assert_eq!(state.trim_history.len(), 2);
    assert_eq!(state.trim_history[0].trigger, TrimTrigger::Manual);
    assert_eq!(state.trim_history[0].result.freed_bytes, 300);
    assert_eq!(state.trim_history[1].result.unique_pids, vec![40]);
    assert_eq!(state.last_trim_result.as_ref().unwrap().freed_bytes, 5000);
    let refused = trim_process(40, Err(TrimError::AccessDenied(40)), at(3), &mut state);
    assert_eq!(refused.unwrap_err(), "Access denied for PID 40");
    assert_eq!(state.trim_history.len(), 2);
    state.config.trim_history_limit = 1;
    trim_process(41, Ok(0), at(4), &mut state).unwrap();
    assert_eq!(state.trim_history.len(), 1);
    assert_eq!(state.trim_history[0].result.unique_pids, vec![41]);
}

#[test]
fn a_bloat_trim_is_recorded_under_the_service() {
    let mut state = state_with(vec![]);
    let nothing = trim_bloat(&vec![], at(1), &mut state);
    assert_eq!(nothing.freed_bytes, 0);
    assert!(state.last_trim_result.is_none());
    let outcomes = vec![
        bloat_outcome("Copilot", 50, Ok(10)),
        bloat_outcome("Copilot", 51, Err(TrimError::ProcessGone(51))),
    ];
    let result = trim_bloat(&outcomes, at(2), &mut state);
    assert_eq!(result.per_process[0].name, "Copilot");
    assert_eq!(result.unique_pids, vec![50]);
    assert_eq!(state.trim_history.len(), 1);
    assert_eq!(state.trim_history[0].trigger, TrimTrigger::Manual);
    assert_eq!(state.last_trim_result.as_ref().unwrap().freed_bytes, 10);
}

#[test]
fn a_trim_that_freed_something_is_announced() {
    let freed = tally(&vec![outcome(1, "a", Ok(3 * 1024 * 1024 * 1024 / 2))], at(0));
    let toast = notify_trim_result(&freed).unwrap();
    assert!(toast.body.contains("1.5 GB"), "{}", toast.body);
    assert!(notify_trim_result(&tally(&vec![], at(0))).is_none());
    assert!(notify_trim_result(&tally(&vec![outcome(1, "a", Ok(0))], at(0))).is_none());
}
