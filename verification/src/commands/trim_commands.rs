//! Trimming, suspending and resuming at the user's request.

use vstd::prelude::*;
use vstd::string::*;

use crate::engine::bloat_scan::{bloat_named, get_bloat_pids, is_exe_of, lists_bloat};
use crate::engine::profiles;
use crate::engine::profiles::{chained, lists_each_category};
use crate::engine::suspender::{
    a_suspension_ends_and_is_recorded, flagged, set_flag, suspend_outcome, suspend_run,
    suspended_state, suspension_keeps_the_state_consistent, SuspendAction, SuspendError,
    SuspendPhase,
};
use crate::engine::trimmer::{
    a_summary_counts_no_process_twice, is_notable, notable, outcome_views, record_event, tallied, tally,
    totals_fit, trim_records, with_trim, TrimError, TrimOutcome, TrimOutcomeView,
};
use crate::state::app_state::{
    AppState, AppStateView, ProcessEntry, ProcessTrimRecordView, Profile, ProfileView, Timestamp,
    TrimResult, TrimResultView, TrimTrigger,
};
use crate::text::{concat2, concat3, decimal, decimal_text, join, joined, same_text, texts};

verus! {

broadcast use vstd::std_specs::hash::group_hash_axioms;

// ---------------------------------------------------------------------------
// Trimming
// ---------------------------------------------------------------------------

/// What a request to trim is recorded under: what it names, and the user's hand
/// where it names nothing that is known.
pub open spec fn trigger_named(trigger: Option<Seq<char>>) -> TrimTrigger {
    match trigger {
        Some(t) => if t == "auto"@ || t == "Auto"@ {
            TrimTrigger::Auto
        } else if t == "gaming"@ || t == "GamingMode"@ {
            TrimTrigger::GamingMode
        } else {
            TrimTrigger::Manual
        },
        None => TrimTrigger::Manual,
    }
}

/// The text of an optional slice.
pub open spec fn opt_str(s: Option<&str>) -> Option<Seq<char>> {
    match s {
        Some(s) => Some(s@),
        None => None,
    }
}

/// Works out what a request to trim all idle processes asks for: what to record
/// as its cause, and how long a process has to be idle under the active profile.
pub fn trim_all(trigger: Option<&str>, state: &AppState) -> (r: (TrimTrigger, u64))
    ensures
        r == (trigger_named(opt_str(trigger)), state@.active_profile.idle_threshold_secs()),
{
    let cause: TrimTrigger = match trigger {
        Some(t) => if same_text(t, "auto") || same_text(t, "Auto") {
            TrimTrigger::Auto
        } else if same_text(t, "gaming") || same_text(t, "GamingMode") {
            TrimTrigger::GamingMode
        } else {
            TrimTrigger::Manual
        },
        None => TrimTrigger::Manual,
    };
    (cause, state.active_profile.idle_threshold_secs())
}

/// The process map once a process gave memory back; unchanged where the process
/// is not listed.
pub open spec fn relieved(m: Map<u32, ProcessEntry>, pid: u32, freed: u64) -> Map<
    u32,
    ProcessEntry,
> {
    if m.contains_key(pid) {
        m.insert(
            pid,
            ProcessEntry {
                ram_bytes: if m[pid].ram_bytes >= freed {
                    (m[pid].ram_bytes - freed) as u64
                } else {
                    0
                },
                ..m[pid]
            },
        )
    } else {
        m
    }
}

/// The summary of trimming a single process.
pub open spec fn single_trim(pid: u32, freed: u64, timestamp: Timestamp) -> TrimResultView {
    TrimResultView {
        freed_bytes: freed,
        processes_trimmed: 1,
        timestamp,
        unique_pids: seq![pid],
        per_process: Seq::empty(),
    }
}

/// Takes in that a single process was trimmed: its memory is corrected at once,
/// and the trim enters the history as one at the user's hand.
pub fn trim_process(
    pid: u32,
    freed: Result<u64, TrimError>,
    timestamp: Timestamp,
    state: &mut AppState,
) -> (r: Result<TrimResult, String>)
    ensures
        match freed {
            Ok(bytes) => r is Ok && r->Ok_0@ == single_trim(pid, bytes, timestamp) && final(state)@
                == (AppStateView {
                process_map: relieved(old(state)@.process_map, pid, bytes),
                ..with_trim(old(state)@, r->Ok_0@, TrimTrigger::Manual)
            }),
            Err(e) => r is Err && r->Err_0@ == e.text() && final(state)@ == old(state)@,
        },
        old(state)@.consistent() ==> final(state)@.consistent(),
{
    match freed {
        Ok(bytes) => {
            let ghost m = state.process_map@;
            if let Some(e) = state.process_map.remove(&pid) {
                let mut e = e;
                e.ram_bytes = e.ram_bytes.saturating_sub(bytes);
                state.process_map.insert(pid, e);
            }
            assert(state.process_map@ =~= relieved(m, pid, bytes));
            let mut unique_pids: Vec<u32> = Vec::new();
            unique_pids.push(pid);
            let result = TrimResult {
                freed_bytes: bytes,
                processes_trimmed: 1,
                timestamp,
                unique_pids,
                per_process: Vec::new(),
            };
            assert(result@.unique_pids =~= seq![pid]);
            assert(result@.per_process =~= Seq::<ProcessTrimRecordView>::empty());
            record_event(state, &result, TrimTrigger::Manual);
            state.last_trim_result = Some(result.clone());
            Ok(result)
        },
        Err(e) => Err(e.message()),
    }
}

/// The state behind a trim of a bloat service: recorded only where it is
/// notable.
pub open spec fn with_bloat_trim(s: AppStateView, result: TrimResultView) -> AppStateView {
    if is_notable(result) {
        with_trim(s, result, TrimTrigger::Manual)
    } else {
        s
    }
}

/// Sums up a trim of a bloat service and records it where it is notable.
/// `outcomes` tells what came of each of its processes.
pub fn trim_bloat(outcomes: &Vec<TrimOutcome>, timestamp: Timestamp, state: &mut AppState) -> (r:
    TrimResult)
    requires
        totals_fit(outcome_views(outcomes@)),
    ensures
        r@ == tallied(outcome_views(outcomes@), timestamp),
        final(state)@ == with_bloat_trim(old(state)@, r@),
        old(state)@.consistent() ==> final(state)@.consistent(),
{
    let result: TrimResult = tally(outcomes, timestamp);
    if notable(&result) {
        record_event(state, &result, TrimTrigger::Manual);
        state.last_trim_result = Some(result.clone());
    }
    result
}

/// A trim of a bloat service that follows the list of its processes reports each
/// of them at most once, just those that were trimmed, and no other process; each
/// record bears the name of the service.
pub proof fn a_bloat_trim_reports_the_service(
    pids: Seq<u32>,
    name: Seq<char>,
    s: AppStateView,
    outcomes: Seq<TrimOutcomeView>,
    timestamp: Timestamp,
)
    requires
        lists_bloat(pids, name, s.process_map),
        outcomes.len() == pids.len(),
        forall|i: int|
            0 <= i < pids.len() ==> (#[trigger] outcomes[i]).pid == pids[i] && outcomes[i].name
                == name,
    ensures
        ({
            let result = tallied(outcomes, timestamp);
            &&& result.unique_pids.no_duplicates()
            &&& forall|i: int|
                0 <= i < pids.len() ==> (#[trigger] outcomes[i].freed is Ok
                    <==> result.unique_pids.contains(pids[i]))
            &&& forall|pid: u32| #[trigger]
                result.unique_pids.contains(pid) ==> pids.contains(pid) && s.process_map.contains_key(
                    pid,
                ) && (bloat_named(name) matches Some(definition) && is_exe_of(
                    definition.exe_names,
                    s.process_map[pid].name@,
                ))
            &&& forall|k: int|
                0 <= k < result.per_process.len() ==> (#[trigger] result.per_process[k]).name == name
        }),
{
    assert forall|i: int, j: int| 0 <= i < j < outcomes.len() implies (
    #[trigger] outcomes[i]).pid != (#[trigger] outcomes[j]).pid by {
        assert(pids[i] != pids[j]);
    }
    a_summary_counts_no_process_twice(outcomes, timestamp);
    lemma_records_bear_the_name(outcomes, name);
    let result = tallied(outcomes, timestamp);
    assert forall|i: int| 0 <= i < pids.len() implies (#[trigger] outcomes[i].freed is Ok
        <==> result.unique_pids.contains(pids[i])) by {
        if result.unique_pids.contains(pids[i]) {
            let j = choose|j: int|
                0 <= j < outcomes.len() && (#[trigger] outcomes[j]).pid == pids[i]
                    && outcomes[j].freed is Ok;
            assert(pids[j] == pids[i]);
        } else if outcomes[i].freed is Ok {
            assert(outcomes[i].pid == pids[i]);
        }
    }
    assert forall|pid: u32| #[trigger] result.unique_pids.contains(pid) implies pids.contains(pid)
        && s.process_map.contains_key(pid) && (bloat_named(name) matches Some(definition)
        && is_exe_of(definition.exe_names, s.process_map[pid].name@)) by {
        let j = choose|j: int|
            0 <= j < outcomes.len() && (#[trigger] outcomes[j]).pid == pid && outcomes[j].freed is Ok;
        assert(pids[j] == pid);
        assert(pids.contains(pid));
    }
}

proof fn lemma_records_bear_the_name(outcomes: Seq<TrimOutcomeView>, name: Seq<char>)
    requires
        forall|i: int| 0 <= i < outcomes.len() ==> (#[trigger] outcomes[i]).name == name,
    ensures
        forall|k: int|
            0 <= k < trim_records(outcomes).len() ==> (#[trigger] trim_records(outcomes)[k]).name
                == name,
    decreases outcomes.len(),
{
    if outcomes.len() > 0 {
        let front = outcomes.drop_last();
        assert forall|i: int| 0 <= i < front.len() implies (#[trigger] front[i]).name == name by {
            assert(outcomes[i].name == name);
        }
        lemma_records_bear_the_name(front, name);
        assert(outcomes[outcomes.len() - 1].name == name);
        let rest = trim_records(front);
        assert forall|k: int| 0 <= k < trim_records(outcomes).len() implies (
        #[trigger] trim_records(outcomes)[k]).name == name by {
            if k < rest.len() {
                assert(rest[k].name == name);
            }
        }
    }
}

/// What came of a process of a bloat service, recorded under the name of the
/// service.
pub fn bloat_outcome(name: &str, pid: u32, freed: Result<u64, TrimError>) -> (r: TrimOutcome)
    ensures
        r@ == (TrimOutcomeView { pid, name: name@, freed }),
{
    TrimOutcome { pid, name: name.to_owned(), freed }
}

// ---------------------------------------------------------------------------
// Suspending and resuming
// ---------------------------------------------------------------------------

/// What is said where processes cannot be suspended on this system.
pub open spec fn no_suspender() -> Seq<char> {
    "SuspenderContext not available — ntdll resolution failed"@
}

/// Refuses where processes cannot be suspended on this system.
pub fn require_suspender(state: &AppState) -> (r: Result<(), String>)
    ensures
        if state@.suspender_available {
            r is Ok
        } else {
            r is Err && r->Err_0@ == no_suspender()
        },
{
    if state.suspender_available {
        Ok(())
    } else {
        Err("SuspenderContext not available — ntdll resolution failed".to_owned())
    }
}

/// What is said where the settings do not allow suspending.
pub open spec fn suspend_forbidden() -> Seq<char> {
    "Hard suspend is not allowed — enable it in the settings first"@
}

/// What is said where a single process is to be suspended outside Gaming mode.
pub open spec fn gaming_required() -> Seq<char> {
    "Suspending a process requires Gaming Mode"@
}

/// Why a request to suspend is refused: processes cannot be suspended on this
/// system, or the user has not allowed it.
pub open spec fn suspend_refusal(s: AppStateView) -> Option<Seq<char>> {
    if !s.suspender_available {
        Some(no_suspender())
    } else if !s.config.hard_suspend_enabled {
        Some(suspend_forbidden())
    } else {
        None
    }
}

/// Refuses a request to suspend where it cannot or may not be done.
pub fn require_suspend_allowed(state: &AppState) -> (r: Result<(), String>)
    ensures
        match suspend_refusal(state@) {
            Some(text) => r is Err && r->Err_0@ == text,
            None => r is Ok,
        },
{
    match require_suspender(state) {
        Ok(_) => if state.config.hard_suspend_enabled {
            Ok(())
        } else {
            Err("Hard suspend is not allowed — enable it in the settings first".to_owned())
        },
        Err(e) => Err(e),
    }
}

/// Why a request to suspend a single process is refused: it cannot or may not be
/// done, or Gaming mode is not active.
pub open spec fn single_suspend_refusal(s: AppStateView) -> Option<Seq<char>> {
    match suspend_refusal(s) {
        Some(text) => Some(text),
        None => if s.active_profile == ProfileView::Gaming {
            None
        } else {
            Some(gaming_required())
        },
    }
}

/// Starts the suspension of a single process at the user's request: hands out the
/// phase from which it is carried out, or the refusal.
pub fn begin_suspension(state: &AppState) -> (r: Result<SuspendPhase, String>)
    ensures
        match single_suspend_refusal(state@) {
            Some(text) => r is Err && r->Err_0@ == text,
            None => r is Ok && r->Ok_0 == SuspendPhase::Start,
        },
{
    match require_suspend_allowed(state) {
        Ok(_) => match &state.active_profile {
            Profile::Gaming => Ok(SuspendPhase::Start),
            _ => Err("Suspending a process requires Gaming Mode".to_owned()),
        },
        Err(e) => Err(e),
    }
}

/// All that a request to suspend a single process does, and the state behind it,
/// from the question whether it is allowed to the answer.
pub open spec fn requested_suspension(s: AppStateView, pid: u32, opened: bool, status: i32) -> (
    AppStateView,
    Seq<SuspendAction>,
) {
    if single_suspend_refusal(s) is Some {
        (s, Seq::empty())
    } else {
        let (end, run) = suspend_run(s, pid, SuspendPhase::Start, opened, status);
        (flag_shown(end, pid, suspend_outcome(pid, opened, status), true), run)
    }
}

/// However the operating system answers, no process is touched and nothing changes
/// where a request to suspend it is refused. Else the process counts as suspended
/// just where suspending it worked.
pub proof fn a_requested_suspension_takes_permission(
    s: AppStateView,
    pid: u32,
    opened: bool,
    status: i32,
)
    requires
        s.consistent(),
    ensures
        ({
            let (end, run) = requested_suspension(s, pid, opened, status);
            let allowed = s.suspender_available && s.config.hard_suspend_enabled
                && s.active_profile == ProfileView::Gaming;
            &&& run.len() > 0 <==> allowed
            &&& end == (if allowed && suspend_outcome(pid, opened, status) is Ok {
                suspended_state(s, pid)
            } else {
                s
            })
            &&& end.consistent()
        }),
{
    a_suspension_ends_and_is_recorded(s, pid, opened, status);
    suspension_keeps_the_state_consistent(s, pid);
    let done = suspended_state(s, pid);
    assert(flagged(done.process_map, pid, true) =~= done.process_map);
}

/// What a request to change one process comes to: the flag shows the change at
/// once.
pub open spec fn flag_shown(
    s: AppStateView,
    pid: u32,
    outcome: Result<(), SuspendError>,
    is_suspended: bool,
) -> AppStateView {
    match outcome {
        Ok(_) => AppStateView { process_map: flagged(s.process_map, pid, is_suspended), ..s },
        Err(_) => s,
    }
}

/// What is answered to such a request.
pub open spec fn is_answer(r: Result<(), String>, outcome: Result<(), SuspendError>) -> bool {
    match outcome {
        Ok(_) => r is Ok,
        Err(e) => r is Err && r->Err_0@ == e.text(),
    }
}

/// Answers a request to suspend a process that was allowed, given what came of
/// it.
pub fn suspend_process(pid: u32, outcome: Result<(), SuspendError>, state: &mut AppState) -> (r: Result<
    (),
    String,
>)
    ensures
        is_answer(r, outcome),
        final(state)@ == flag_shown(old(state)@, pid, outcome, true),
        old(state)@.consistent() && old(state)@.suspended_set.contains(pid)
            ==> final(state)@.consistent(),
{
    match outcome {
        Ok(_) => {
            set_flag(state, pid, true);
            Ok(())
        },
        Err(e) => Err(e.message()),
    }
}

/// Answers a request to resume a process, given what came of it.
pub fn resume_process(pid: u32, outcome: Result<(), SuspendError>, state: &mut AppState) -> (r: Result<
    (),
    String,
>)
    ensures
        is_answer(r, outcome),
        final(state)@ == flag_shown(old(state)@, pid, outcome, false),
        old(state)@.consistent() && !old(state)@.suspended_set.contains(pid)
            ==> final(state)@.consistent(),
{
    match outcome {
        Ok(_) => {
            set_flag(state, pid, false);
            Ok(())
        },
        Err(e) => Err(e.message()),
    }
}

/// What came of suspending one process of a bloat service.
#[derive(Debug, Clone, Copy, PartialEq, Eq)]
pub struct SuspendOutcome {
    pub pid: u32,
    pub outcome: Result<(), SuspendError>,
}

/// The failures among outcomes, each with the process it befell.
pub open spec fn failure_texts(outcomes: Seq<SuspendOutcome>) -> Seq<Seq<char>>
    decreases outcomes.len(),
{
    if outcomes.len() == 0 {
        Seq::empty()
    } else {
        let rest = failure_texts(outcomes.drop_last());
        match outcomes.last().outcome {
            Ok(_) => rest,
            Err(e) => rest.push("PID "@ + decimal(outcomes.last().pid as nat) + ": "@ + e.text()),
        }
    }
}

/// What is said where some processes of a bloat service could not be suspended.
pub open spec fn bloat_failure(name: Seq<char>, outcomes: Seq<SuspendOutcome>) -> Seq<char> {
    "suspend_bloat \""@ + name + "\": "@ + decimal(failure_texts(outcomes).len()) + " of "@
        + decimal(outcomes.len()) + " PIDs failed — "@ + joined(failure_texts(outcomes), "; "@)
}

proof fn lemma_failures_are_outcomes(outcomes: Seq<SuspendOutcome>)
    ensures
        failure_texts(outcomes).len() <= outcomes.len(),
    decreases outcomes.len(),
{
    if outcomes.len() > 0 {
        lemma_failures_are_outcomes(outcomes.drop_last());
    }
}

/// Answers a request to suspend a bloat service that was allowed, given what came
/// of each of its processes.
pub fn suspend_bloat(name: &str, outcomes: &Vec<SuspendOutcome>) -> (r: Result<(), String>)
    ensures
        if failure_texts(outcomes@).len() == 0 {
            r is Ok
        } else {
            r is Err && r->Err_0@ == bloat_failure(name@, outcomes@)
        },
{
    let mut errors: Vec<String> = Vec::new();
    let mut i: usize = 0;
    assert(texts(errors@) =~= failure_texts(outcomes@.take(0)));
    while i < outcomes.len()
        invariant
            i <= outcomes@.len(),
            texts(errors@) == failure_texts(outcomes@.take(i as int)),
        decreases outcomes@.len() - i,
    {
        assert(outcomes@.take(i + 1).drop_last() =~= outcomes@.take(i as int));
        let outcome: SuspendOutcome = outcomes[i];
        if let Err(e) = outcome.outcome {
            let mut text: String = concat2("PID ", decimal_text(outcome.pid as u64).as_str());
            text.append(": ");
            text.append(e.message().as_str());
            let ghost before = errors@;
            let ghost view = text@;
            errors.push(text);
            assert(texts(errors@) =~= texts(before).push(view));
        }
        i = i + 1;
    }
    assert(outcomes@.take(i as int) =~= outcomes@);
    assert(texts(errors@).len() == errors@.len());
    if errors.len() == 0 {
        return Ok(());
    }
    let mut text: String = concat3("suspend_bloat \"", name, "\": ");
    text.append(decimal_text(errors.len() as u64).as_str());
    text.append(" of ");
    text.append(decimal_text(outcomes.len() as u64).as_str());
    text.append(" PIDs failed — ");
    text.append(join(&errors, "; ").as_str());
    Err(text)
}

/// The processes to suspend so that a bloat service does not run; refused where
/// processes cannot be suspended on this system or the user has not allowed it.
pub fn suspend_targets(name: &str, state: &AppState) -> (r: Result<Vec<u32>, String>)
    ensures
        match suspend_refusal(state@) {
            Some(text) => r is Err && r->Err_0@ == text,
            None => r is Ok && lists_bloat(r->Ok_0@, name@, state@.process_map),
        },
        r is Ok <==> state@.suspender_available && state@.config.hard_suspend_enabled,
{
    match require_suspend_allowed(state) {
        Ok(_) => Ok(get_bloat_pids(name, state)),
        Err(e) => Err(e),
    }
}

/// The processes to resume so that a bloat service runs again; refused where
/// processes cannot be suspended on this system. Resuming takes no permission.
pub fn resume_bloat(name: &str, state: &AppState) -> (r: Result<Vec<u32>, String>)
    ensures
        if state@.suspender_available {
            r is Ok && lists_bloat(r->Ok_0@, name@, state@.process_map)
        } else {
            r is Err && r->Err_0@ == no_suspender()
        },
{
    match require_suspender(state) {
        Ok(_) => Ok(get_bloat_pids(name, state)),
        Err(e) => Err(e),
    }
}

/// The processes to suspend so that no bloat service runs; refused where
/// processes cannot be suspended on this system or the user has not allowed it.
/// That some of them cannot be suspended is no failure of the request.
pub fn suspend_all_bloat(state: &AppState) -> (r: Result<Vec<u32>, String>)
    ensures
        match suspend_refusal(state@) {
            Some(text) => r is Err && r->Err_0@ == text,
            None => r is Ok && exists|parts: Seq<Seq<u32>>|
                lists_each_category(parts, state@.process_map) && r->Ok_0@ == #[trigger] chained(
                    parts,
                ),
        },
        r is Ok <==> state@.suspender_available && state@.config.hard_suspend_enabled,
{
    match require_suspend_allowed(state) {
        Ok(_) => Ok(profiles::suspend_all_bloat(state)),
        Err(e) => Err(e),
    }
}

/// A single trim takes what was freed off the memory of that process, down to
/// nothing at most, and touches no other process and nothing else of it.
pub proof fn a_single_trim_relieves_one_process(m: Map<u32, ProcessEntry>, pid: u32, freed: u64)
    ensures
        ({
            let after = relieved(m, pid, freed);
            &&& after.dom() == m.dom()
            &&& forall|p: u32|
                m.contains_key(p) && p != pid ==> (#[trigger] after[p]) == m[p]
            &&& m.contains_key(pid) ==> after[pid] == (ProcessEntry {
                ram_bytes: after[pid].ram_bytes,
                ..m[pid]
            })
            &&& m.contains_key(pid) && freed <= m[pid].ram_bytes ==> after[pid].ram_bytes + freed
                == m[pid].ram_bytes
            &&& m.contains_key(pid) && freed > m[pid].ram_bytes ==> after[pid].ram_bytes == 0
        }),
{
    assert(relieved(m, pid, freed).dom() =~= m.dom());
}

/// The summary of a single trim counts that process and what it gave back.
pub proof fn a_single_trim_is_summed_up(pid: u32, freed: u64, timestamp: Timestamp)
    ensures
        ({
            let r = single_trim(pid, freed, timestamp);
            &&& r.freed_bytes == freed
            &&& r.processes_trimmed == 1
            &&& r.unique_pids == seq![pid]
            &&& r.timestamp == timestamp
        }),
{
}

/// What a request to trim is recorded under.
pub proof fn a_request_names_its_cause(trigger: Option<Seq<char>>)
    ensures
        trigger_named(trigger) == TrimTrigger::Auto <==> trigger == Some("auto"@) || trigger == Some(
            "Auto"@,
        ),
        trigger_named(trigger) == TrimTrigger::GamingMode <==> trigger == Some("gaming"@) || trigger
            == Some("GamingMode"@),
{
    reveal_strlit("auto");
    reveal_strlit("Auto");
    reveal_strlit("gaming");
    reveal_strlit("GamingMode");
    assert("auto"@.len() == 4 && "Auto"@.len() == 4);
    assert("gaming"@.len() == 6 && "GamingMode"@.len() == 10);
}

/// A bloat trim is recorded like any other at the user's hand, and leaves no trace
/// where no process was reached and nothing was freed.
pub proof fn a_bloat_trim_is_recorded_where_it_did_something(
    s: AppStateView,
    result: TrimResultView,
)
    ensures
        ({
            let after = with_bloat_trim(s, result);
            &&& result.freed_bytes == 0 && result.processes_trimmed == 0 ==> after == s
            &&& result.freed_bytes > 0 || result.processes_trimmed > 0 ==> {
                &&& after.last_trim_result == Some(result)
                &&& after.trim_history.len() > 0
                &&& after.trim_history.last().result == result
                &&& after.trim_history.last().trigger == TrimTrigger::Manual
                &&& after == (AppStateView {
                    last_trim_result: after.last_trim_result,
                    trim_history: after.trim_history,
                    ..s
                })
            }
        }),
{
}

/// Suspending is refused just where it cannot be done or the user has not allowed
/// it.
pub proof fn suspending_takes_permission(s: AppStateView)
    ensures
        suspend_refusal(s) is None <==> s.suspender_available && s.config.hard_suspend_enabled,
        single_suspend_refusal(s) is None <==> s.suspender_available && s.config.hard_suspend_enabled
            && s.active_profile is Gaming,
{
}

/// A request to suspend a bloat service succeeds just where each of its processes
/// was suspended, and names as many failures as there were.
pub proof fn a_service_is_suspended_where_all_its_processes_are(
    outcomes: Seq<SuspendOutcome>,
    last: SuspendOutcome,
)
    ensures
        failure_texts(outcomes).len() == 0 <==> forall|i: int|
            0 <= i < outcomes.len() ==> (#[trigger] outcomes[i]).outcome is Ok,
        failure_texts(outcomes.push(last)).len() == failure_texts(outcomes).len() + (
        if last.outcome is Err {
            1int
        } else {
            0int
        }),
    decreases outcomes.len(),
{
    assert(outcomes.push(last).drop_last() =~= outcomes);
    if outcomes.len() > 0 {
        let front = outcomes.drop_last();
        a_service_is_suspended_where_all_its_processes_are(front, last);
        assert(outcomes[outcomes.len() - 1] == outcomes.last());
        if failure_texts(outcomes).len() == 0 {
            assert forall|i: int| 0 <= i < outcomes.len() implies (
            #[trigger] outcomes[i]).outcome is Ok by {
                if i < front.len() {
                    assert(front[i] == outcomes[i]);
                }
            }
        }
        if forall|i: int| 0 <= i < outcomes.len() ==> (#[trigger] outcomes[i]).outcome is Ok {
            assert forall|i: int| 0 <= i < front.len() implies (#[trigger] front[i]).outcome is Ok by {
                assert(outcomes[i].outcome is Ok);
            }
        }
    }
}

/// A failure is listed with the process that it befell and what is said of it, and
/// the answer counts the failures among the processes.
pub proof fn failures_are_listed_with_their_process(
    name: Seq<char>,
    outcomes: Seq<SuspendOutcome>,
    last: SuspendOutcome,
)
    ensures
        last.outcome matches Err(e) ==> failure_texts(outcomes.push(last)) == failure_texts(
            outcomes,
        ).push("PID "@ + decimal(last.pid as nat) + ": "@ + e.text()),
        last.outcome is Ok ==> failure_texts(outcomes.push(last)) == failure_texts(outcomes),
        bloat_failure(name, outcomes) == "suspend_bloat \""@ + name + "\": "@ + decimal(
            failure_texts(outcomes).len(),
        ) + " of "@ + decimal(outcomes.len()) + " PIDs failed — "@ + joined(
            failure_texts(outcomes),
            "; "@,
        ),
{
    assert(outcomes.push(last).drop_last() =~= outcomes);
}

} // verus!
