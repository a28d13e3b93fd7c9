//! Soft trimming: which processes are trimmed, how one process is trimmed, and
//! what is recorded of it.

use vstd::prelude::*;
use vstd::string::*;

use crate::engine::process_table::{by_ram_descending, entries_of, enumerates};
use crate::engine::profiler::{get_idle_processes, is_trim_candidate};
use crate::state::app_state::{
    event_views, record_views, AppState, AppStateView, ProcessEntry, ProcessTrimRecord,
    ProcessTrimRecordView, Profile, ProfileView, Timestamp, TrimEvent, TrimEventView, TrimResult,
    TrimResultView, TrimTrigger,
};
use crate::text::{
    concat2, decimal, decimal_text, list_contains, lowercase_all, lowered, lowered_all, texts,
    to_lowercase,
};

verus! {

// ---------------------------------------------------------------------------
// Errors
// ---------------------------------------------------------------------------

/// Why a process could not be trimmed.
#[derive(Debug, Clone, Copy, PartialEq, Eq, Structural)]
pub enum TrimError {
    /// The process could not be opened or measured.
    AccessDenied(u32),
    /// Emptying the working set failed with a system error code.
    TrimFailed(u32, u32),
    /// The process no longer exists.
    ProcessGone(u32),
}

impl TrimError {
    /// The text of the error.
    pub open spec fn text(self) -> Seq<char> {
        match self {
            TrimError::AccessDenied(pid) => "Access denied for PID "@ + decimal(pid as nat),
            TrimError::TrimFailed(pid, code) => "Trim failed for PID "@ + decimal(pid as nat)
                + ": "@ + decimal(code as nat),
            TrimError::ProcessGone(pid) => "Process not found: PID "@ + decimal(pid as nat),
        }
    }

    /// The text of the error.
    pub fn message(&self) -> (r: String)
        ensures
            r@ == self.text(),
    {
        match self {
            TrimError::AccessDenied(pid) => concat2(
                "Access denied for PID ",
                decimal_text(*pid as u64).as_str(),
            ),
            TrimError::TrimFailed(pid, code) => {
                let mut r: String = concat2(
                    "Trim failed for PID ",
                    decimal_text(*pid as u64).as_str(),
                );
                r.append(": ");
                r.append(decimal_text(*code as u64).as_str());
                r
            },
            TrimError::ProcessGone(pid) => concat2(
                "Process not found: PID ",
                decimal_text(*pid as u64).as_str(),
            ),
        }
    }
}

// ---------------------------------------------------------------------------
// Trimming one process
// ---------------------------------------------------------------------------

/// How far the trim of one process has come.
#[derive(Debug, Clone, Copy, PartialEq, Eq)]
pub enum TrimPhase {
    /// Nothing was done yet.
    Start,
    /// The process is being opened.
    Opening,
    /// The working set is measured for the first time.
    MeasuringBefore,
    /// The working set of this size is being emptied.
    Emptying(u64),
    /// The working set, of this size before, is measured again.
    MeasuringAfter(u64),
    /// The process is being closed; this is what the trim came to.
    Closing(Result<u64, TrimError>),
    /// The trim is over.
    Returned,
}

/// What to do next.
#[derive(Debug, Clone, Copy, PartialEq, Eq)]
pub enum TrimAction {
    /// Open the process for querying and for setting its quota.
    Open,
    /// Read the size of its working set.
    Measure,
    /// Empty its working set.
    Empty,
    /// Close the process.
    Close,
    /// The trim is over, with the bytes freed or the error.
    Return(Result<u64, TrimError>),
}

/// What came of the last action.
#[derive(Debug, Clone, Copy, PartialEq, Eq)]
pub enum TrimReply {
    /// Nothing has been done so far.
    Begin,
    /// Whether the process could be opened.
    Opened(bool),
    /// The size of the working set, where it could be read.
    WorkingSet(Option<u64>),
    /// Whether the working set was emptied, else the system error code.
    Emptied(Result<(), u32>),
    /// The process was closed.
    Closed,
}

/// The reply answers what the phase asked for.
pub open spec fn trim_reply_fits(phase: TrimPhase, reply: TrimReply) -> bool {
    match phase {
        TrimPhase::Start => reply is Begin,
        TrimPhase::Opening => reply is Opened,
        TrimPhase::MeasuringBefore => reply is WorkingSet,
        TrimPhase::Emptying(_) => reply is Emptied,
        TrimPhase::MeasuringAfter(_) => reply is WorkingSet,
        TrimPhase::Closing(_) => reply is Closed,
        TrimPhase::Returned => false,
    }
}

/// What the machine makes of a reply: the next phase and the next action.
pub open spec fn trim_step(pid: u32, phase: TrimPhase, reply: TrimReply) -> (TrimPhase, TrimAction) {
    match (phase, reply) {
        (TrimPhase::Start, _) => (TrimPhase::Opening, TrimAction::Open),
        (TrimPhase::Opening, TrimReply::Opened(true)) => (
            TrimPhase::MeasuringBefore,
            TrimAction::Measure,
        ),
        (TrimPhase::Opening, _) => (
            TrimPhase::Returned,
            TrimAction::Return(Err(TrimError::AccessDenied(pid))),
        ),
        (TrimPhase::MeasuringBefore, TrimReply::WorkingSet(Some(before))) => (
            TrimPhase::Emptying(before),
            TrimAction::Empty,
        ),
        (TrimPhase::MeasuringBefore, _) => (
            TrimPhase::Closing(Err(TrimError::AccessDenied(pid))),
            TrimAction::Close,
        ),
        (TrimPhase::Emptying(before), TrimReply::Emptied(Ok(_))) => (
            TrimPhase::MeasuringAfter(before),
            TrimAction::Measure,
        ),
        (TrimPhase::Emptying(_), TrimReply::Emptied(Err(code))) => (
            TrimPhase::Closing(Err(TrimError::TrimFailed(pid, code))),
            TrimAction::Close,
        ),
        (TrimPhase::MeasuringAfter(before), TrimReply::WorkingSet(Some(after))) => (
            TrimPhase::Closing(
                Ok(
                    if before >= after {
                        (before - after) as u64
                    } else {
                        0
                    },
                ),
            ),
            TrimAction::Close,
        ),
        (TrimPhase::MeasuringAfter(before), _) => (
            TrimPhase::Closing(Ok(before)),
            TrimAction::Close,
        ),
        (TrimPhase::Closing(outcome), _) => (TrimPhase::Returned, TrimAction::Return(outcome)),
        (_, _) => (phase, TrimAction::Close),
    }
}

/// One step of trimming a process: takes what came of the last action and says
/// what to do next.
pub fn soft_trim(pid: u32, phase: &mut TrimPhase, reply: TrimReply) -> (r: TrimAction)
    requires
        trim_reply_fits(*old(phase), reply),
    ensures
        (*final(phase), r) == trim_step(pid, *old(phase), reply),
{
    match *phase {
        TrimPhase::Start => {
            *phase = TrimPhase::Opening;
            TrimAction::Open
        },
        TrimPhase::Opening => match reply {
            TrimReply::Opened(true) => {
                *phase = TrimPhase::MeasuringBefore;
                TrimAction::Measure
            },
            _ => {
                *phase = TrimPhase::Returned;
                TrimAction::Return(Err(TrimError::AccessDenied(pid)))
            },
        },
        TrimPhase::MeasuringBefore => match reply {
            TrimReply::WorkingSet(Some(before)) => {
                *phase = TrimPhase::Emptying(before);
                TrimAction::Empty
            },
            _ => {
                *phase = TrimPhase::Closing(Err(TrimError::AccessDenied(pid)));
                TrimAction::Close
            },
        },
        TrimPhase::Emptying(before) => match reply {
            TrimReply::Emptied(Err(code)) => {
                *phase = TrimPhase::Closing(Err(TrimError::TrimFailed(pid, code)));
                TrimAction::Close
            },
            _ => {
                *phase = TrimPhase::MeasuringAfter(before);
                TrimAction::Measure
            },
        },
        TrimPhase::MeasuringAfter(before) => {
            let freed: u64 = match reply {
                TrimReply::WorkingSet(Some(after)) => if before >= after {
                    before - after
                } else {
                    0
                },
                _ => before,
            };
            *phase = TrimPhase::Closing(Ok(freed));
            TrimAction::Close
        },
        TrimPhase::Closing(outcome) => {
            *phase = TrimPhase::Returned;
            TrimAction::Return(outcome)
        },
        TrimPhase::Returned => TrimAction::Close,
    }
}

/// How the operating system answers one trim.
pub struct TrimAnswers {
    pub opened: bool,
    pub before: Option<u64>,
    pub emptied: Result<(), u32>,
    pub after: Option<u64>,
}

/// The reply to the action that led into `phase`.
pub open spec fn trim_answer(answers: TrimAnswers, phase: TrimPhase) -> TrimReply {
    match phase {
        TrimPhase::Start => TrimReply::Begin,
        TrimPhase::Opening => TrimReply::Opened(answers.opened),
        TrimPhase::MeasuringBefore => TrimReply::WorkingSet(answers.before),
        TrimPhase::Emptying(_) => TrimReply::Emptied(answers.emptied),
        TrimPhase::MeasuringAfter(_) => TrimReply::WorkingSet(answers.after),
        TrimPhase::Closing(_) => TrimReply::Closed,
        TrimPhase::Returned => TrimReply::Begin,
    }
}

/// How many actions are left at most.
pub open spec fn trim_steps_left(phase: TrimPhase) -> nat {
    match phase {
        TrimPhase::Start => 6,
        TrimPhase::Opening => 5,
        TrimPhase::MeasuringBefore => 4,
        TrimPhase::Emptying(_) => 3,
        TrimPhase::MeasuringAfter(_) => 2,
        TrimPhase::Closing(_) => 1,
        TrimPhase::Returned => 0,
    }
}

/// All actions of a trim from `phase` on.
pub open spec fn trim_run(pid: u32, phase: TrimPhase, answers: TrimAnswers) -> Seq<TrimAction>
    decreases trim_steps_left(phase),
{
    if phase is Returned {
        Seq::empty()
    } else {
        let (next, action) = trim_step(pid, phase, trim_answer(answers, phase));
        seq![action] + trim_run(pid, next, answers)
    }
}

/// What a trim comes to: the bytes by which the working set shrank, all of it
/// where it could not be measured again, or why nothing was trimmed.
pub open spec fn trim_outcome(pid: u32, answers: TrimAnswers) -> Result<u64, TrimError> {
    if !answers.opened || answers.before is None {
        Err(TrimError::AccessDenied(pid))
    } else {
        match answers.emptied {
            Err(code) => Err(TrimError::TrimFailed(pid, code)),
            Ok(_) => {
                let before = answers.before->0;
                Ok(
                    match answers.after {
                        None => before,
                        Some(after) => if before >= after {
                            (before - after) as u64
                        } else {
                            0
                        },
                    },
                )
            },
        }
    }
}

/// However the operating system answers, a trim ends with its outcome, and a
/// process that was opened is closed right before that, and never earlier.
pub proof fn soft_trim_ends_and_closes(pid: u32, answers: TrimAnswers)
    ensures
        ({
            let run = trim_run(pid, TrimPhase::Start, answers);
            &&& run.len() >= 2
            &&& run[0] == TrimAction::Open
            &&& run.last() == TrimAction::Return(trim_outcome(pid, answers))
            &&& answers.opened <==> run[run.len() - 2] == TrimAction::Close
            &&& forall|i: int| 0 <= i < run.len() - 2 ==> run[i] != TrimAction::Close
        }),
{
    reveal_with_fuel(trim_run, 7);
}

/// What a trim reports, whatever the operating system answers: access denied where
/// the process could not be opened or measured, the system error where its working
/// set could not be emptied, and else by how much the working set shrank.
pub proof fn a_soft_trim_reports_what_was_freed(pid: u32, answers: TrimAnswers)
    ensures
        ({
            let run = trim_run(pid, TrimPhase::Start, answers);
            let emptied = answers.opened && answers.before is Some;
            &&& !emptied ==> run.last() == TrimAction::Return(Err(TrimError::AccessDenied(pid)))
            &&& emptied ==> (answers.emptied matches Err(code) ==> run.last()
                == TrimAction::Return(Err(TrimError::TrimFailed(pid, code))))
            &&& emptied && answers.emptied is Ok ==> (answers.after matches Some(after)
                ==> run.last() == TrimAction::Return(
                Ok(
                    if answers.before->0 > after {
                        (answers.before->0 - after) as u64
                    } else {
                        0
                    },
                ),
            ))
            &&& emptied && answers.emptied is Ok && answers.after is None ==> run.last()
                == TrimAction::Return(Ok(answers.before->0))
            &&& run.contains(TrimAction::Empty) <==> emptied
        }),
{
    reveal_with_fuel(trim_run, 7);
    let run = trim_run(pid, TrimPhase::Start, answers);
    if answers.opened && answers.before is Some {
        assert(run[2] == TrimAction::Empty);
    }
}

/// A trim measures the working set, empties it and measures it again, as far as it
/// gets, between opening and closing the process.
pub proof fn a_soft_trim_takes_its_steps(pid: u32, answers: TrimAnswers)
    ensures
        ({
            let run = trim_run(pid, TrimPhase::Start, answers).drop_last();
            &&& !answers.opened ==> run == seq![
                TrimAction::Open,
            ]
            &&& answers.opened && answers.before is None ==> run == seq![
                TrimAction::Open,
                TrimAction::Measure,
                TrimAction::Close,
            ]
            &&& answers.opened && answers.before is Some && answers.emptied is Err ==> run == seq![
                TrimAction::Open,
                TrimAction::Measure,
                TrimAction::Empty,
                TrimAction::Close,
            ]
            &&& answers.opened && answers.before is Some && answers.emptied is Ok ==> run == seq![
                TrimAction::Open,
                TrimAction::Measure,
                TrimAction::Empty,
                TrimAction::Measure,
                TrimAction::Close,
            ]
        }),
{
    reveal_with_fuel(trim_run, 7);
    let run = trim_run(pid, TrimPhase::Start, answers).drop_last();
    if !answers.opened {
        assert(run =~= seq![
            TrimAction::Open,
        ]);
    }
    if answers.opened && answers.before is None {
        assert(run =~= seq![
            TrimAction::Open,
            TrimAction::Measure,
            TrimAction::Close,
        ]);
    }
    if answers.opened && answers.before is Some && answers.emptied is Err {
        assert(run =~= seq![
            TrimAction::Open,
            TrimAction::Measure,
            TrimAction::Empty,
            TrimAction::Close,
        ]);
    }
    if answers.opened && answers.before is Some && answers.emptied is Ok {
        assert(run =~= seq![
            TrimAction::Open,
            TrimAction::Measure,
            TrimAction::Empty,
            TrimAction::Measure,
            TrimAction::Close,
        ]);
    }
}

// ---------------------------------------------------------------------------
// Choosing what to trim
// ---------------------------------------------------------------------------

/// The names that a profile excludes.
pub open spec fn profile_exclusions(profile: ProfileView) -> Seq<Seq<char>> {
    match profile {
        ProfileView::Custom(cp) => cp.excluded_apps,
        _ => Seq::empty(),
    }
}

/// The names that are never trimmed under the current settings, in lower case:
/// those the user excluded, those the profile excludes and the one spared for the
/// Focus session.
pub open spec fn excluded_names(s: AppStateView) -> Seq<Seq<char>> {
    let listed = lowered_all(s.config.excluded_processes) + lowered_all(
        profile_exclusions(s.active_profile),
    );
    match s.session_excluded {
        Some(name) => listed.push(lowered(name)),
        None => listed,
    }
}

/// A process name is spared, whatever its case.
pub open spec fn is_spared(s: AppStateView, name: Seq<char>) -> bool {
    excluded_names(s).contains(lowered(name))
}

/// What makes a process part of a trim.
pub open spec fn is_trim_target(s: AppStateView, min_idle_secs: u64) -> spec_fn(ProcessEntry) -> bool {
    |e: ProcessEntry| is_trim_candidate(e, min_idle_secs) && !is_spared(s, e.name@)
}

/// `list` holds each process that a trim is to visit once, the largest consumer
/// first.
pub open spec fn is_trim_plan(list: Seq<ProcessEntry>, s: AppStateView, min_idle_secs: u64) -> bool {
    &&& by_ram_descending(list)
    &&& exists|keys: Seq<u32>|
        enumerates(keys, s.process_map, is_trim_target(s, min_idle_secs)) && list
            == #[trigger] entries_of(s.process_map, keys)
}

fn collect_excluded_names(state: &AppState) -> (r: Vec<String>)
    ensures
        texts(r@) == excluded_names(state@),
{
    let mut r: Vec<String> = lowercase_all(&state.config.excluded_processes);
    let ghost listed = texts(r@);
    if let Profile::Custom(cp) = &state.active_profile {
        let own: Vec<String> = lowercase_all(&cp.excluded_apps);
        let mut i: usize = 0;
        assert(texts(r@) =~= listed + texts(own@).take(0));
        while i < own.len()
            invariant
                i <= own@.len(),
                texts(r@) == listed + texts(own@).take(i as int),
            decreases own@.len() - i,
        {
            let ghost before = r@;
            r.push(own[i].clone());
            assert(texts(r@) =~= texts(before).push(own@[i as int]@));
            assert(texts(r@) =~= listed + texts(own@).take(i + 1));
            i = i + 1;
        }
        assert(texts(own@).take(i as int) =~= texts(own@));
    }
    assert(texts(r@) =~= listed + lowered_all(profile_exclusions(state@.active_profile)));
    if let Some(name) = &state.session_excluded {
        let ghost before = r@;
        r.push(to_lowercase(name.as_str()));
        assert(texts(r@) =~= texts(before).push(lowered(name@)));
    }
    r
}

/// The processes that a trim is to visit: idle for at least `min_idle_secs`
/// seconds and not spared.
pub fn trim_plan(state: &AppState, min_idle_secs: u64) -> (r: Vec<ProcessEntry>)
    ensures
        is_trim_plan(r@, state@, min_idle_secs),
{
    let candidates: Vec<ProcessEntry> = get_idle_processes(state, min_idle_secs);
    let excluded: Vec<String> = collect_excluded_names(state);
    let ghost m = state@.process_map;
    let ghost list = candidates@;
    let ghost keys: Seq<u32> = choose|keys: Seq<u32>|
        enumerates(keys, m, |e: ProcessEntry| is_trim_candidate(e, min_idle_secs)) && list
            == #[trigger] entries_of(m, keys);
    let ghost mut kept_keys: Seq<u32> = Seq::empty();
    let mut kept: Vec<ProcessEntry> = Vec::new();
    let mut i: usize = 0;
    assert(entries_of(m, kept_keys) =~= kept@);
    while i < candidates.len()
        invariant
            i <= candidates@.len(),
            list == candidates@,
            m == state@.process_map,
            list == entries_of(m, keys),
            keys.no_duplicates(),
            by_ram_descending(list),
            texts(excluded@) == excluded_names(state@),
            kept@ == entries_of(m, kept_keys),
            kept_keys.no_duplicates(),
            forall|k: u32| #[trigger]
                kept_keys.contains(k) <==> (keys.take(i as int).contains(k) && !is_spared(
                    state@,
                    m[k].name@,
                )),
            by_ram_descending(kept@),
            forall|a: int, b: int|
                0 <= a < kept@.len() && i <= b < list.len() ==> kept@[a].ram_bytes
                    >= list[b].ram_bytes,
        decreases candidates@.len() - i,
    {
        let ghost key = keys[i as int];
        let ghost before = kept_keys;
        let ghost done = keys.take(i as int);
        let lower: String = to_lowercase(candidates[i].name.as_str());
        proof {
            assert(list[i as int] == m[key]);
            assert(keys.take(i + 1) =~= done.push(key));
            assert forall|k: u32| #[trigger] done.push(key).contains(k) <==> (done.contains(k) || k
                == key) by {
                broadcast use vstd::seq_lib::group_seq_properties;
            }
            assert(!done.contains(key));
        }
        if !list_contains(&excluded, lower.as_str()) {
            let ghost kept_before = kept@;
            kept.push(candidates[i].clone());
            proof {
                kept_keys = kept_keys.push(key);
                assert(kept@ =~= entries_of(m, kept_keys));
                assert forall|k: u32| #[trigger] kept_keys.contains(k) <==> (before.contains(k) || k
                    == key) by {
                    broadcast use vstd::seq_lib::group_seq_properties;
                }
                assert(!before.contains(key));
                assert forall|a: int, b: int| 0 <= a <= b < kept@.len() implies kept@[a].ram_bytes
                    >= kept@[b].ram_bytes by {
                    if b < kept_before.len() {
                        assert(kept_before[a].ram_bytes >= kept_before[b].ram_bytes);
                    }
                }
            }
        }
        i = i + 1;
    }
    proof {
        assert(keys.take(i as int) =~= keys);
        assert forall|k: u32| #[trigger] kept_keys.contains(k) <==> (m.contains_key(k)
            && is_trim_target(state@, min_idle_secs)(m[k])) by {
            assert(keys.contains(k) <==> (m.contains_key(k) && is_trim_candidate(
                m[k],
                min_idle_secs,
            )));
        }
        assert(enumerates(kept_keys, m, is_trim_target(state@, min_idle_secs)));
    }
    kept
}

/// The ids of a list of processes.
pub open spec fn pids_of(list: Seq<ProcessEntry>) -> Seq<u32> {
    Seq::new(list.len(), |i: int| list[i].pid)
}

/// A trim never visits a process twice, nor one that is protected, excluded,
/// suspended, spared or not idle for long enough, and it leaves out no other.
pub proof fn trim_plan_spares_what_it_must(
    list: Seq<ProcessEntry>,
    s: AppStateView,
    min_idle_secs: u64,
)
    requires
        s.consistent(),
        is_trim_plan(list, s, min_idle_secs),
    ensures
        pids_of(list).no_duplicates(),
        forall|i: int|
            0 <= i < list.len() ==> {
                let e = #[trigger] list[i];
                &&& s.process_map.contains_key(e.pid) && s.process_map[e.pid] == e
                &&& !e.is_protected
                &&& !e.is_excluded
                &&& !s.suspended_set.contains(e.pid)
                &&& !is_spared(s, e.name@)
                &&& e.idle_seconds >= min_idle_secs
            },
        forall|pid: u32| #[trigger]
            s.process_map.contains_key(pid) && is_trim_target(s, min_idle_secs)(s.process_map[pid])
                ==> list.contains(s.process_map[pid]),
{
    let m = s.process_map;
    let keys = choose|keys: Seq<u32>|
        enumerates(keys, m, is_trim_target(s, min_idle_secs)) && list == #[trigger] entries_of(
            m,
            keys,
        );
    assert forall|i: int| 0 <= i < list.len() implies (#[trigger] list[i]).pid == keys[i]
        && m.contains_key(keys[i]) && is_trim_target(s, min_idle_secs)(m[keys[i]]) by {
        assert(keys.contains(keys[i]));
    }
    assert(pids_of(list) =~= keys);
    assert forall|pid: u32| #[trigger]
        m.contains_key(pid) && is_trim_target(s, min_idle_secs)(m[pid]) implies list.contains(
        m[pid],
    ) by {
        assert(keys.contains(pid));
        let i = choose|i: int| 0 <= i < keys.len() && keys[i] == pid;
        assert(list[i] == m[pid]);
    }
}

/// A trim visits every process that has been idle long enough, is neither protected
/// nor excluded nor suspended, and whose name, whatever its case, neither the user
/// nor the profile excludes nor the Focus session spares. It visits no other.
pub proof fn a_trim_visits_all_that_nothing_spares(
    list: Seq<ProcessEntry>,
    s: AppStateView,
    min_idle_secs: u64,
)
    requires
        is_trim_plan(list, s, min_idle_secs),
    ensures
        forall|pid: u32|
            s.process_map.contains_key(pid) && s.process_map[pid].idle_seconds >= min_idle_secs
                && !s.process_map[pid].is_protected && !s.process_map[pid].is_excluded
                && !s.process_map[pid].is_suspended && (forall|k: int|
                0 <= k < s.config.excluded_processes.len() ==> lowered(
                    #[trigger] s.config.excluded_processes[k],
                ) != lowered(s.process_map[pid].name@)) && (s.active_profile matches ProfileView::Custom(
                own,
            ) ==> forall|k: int|
                0 <= k < own.excluded_apps.len() ==> lowered(#[trigger] own.excluded_apps[k])
                    != lowered(s.process_map[pid].name@)) && (s.session_excluded matches Some(spared)
                ==> lowered(spared) != lowered(s.process_map[pid].name@)) ==> list.contains(
                #[trigger] s.process_map[pid],
            ),
        forall|i: int|
            0 <= i < list.len() ==> {
                let e = #[trigger] list[i];
                &&& e.idle_seconds >= min_idle_secs
                &&& !e.is_protected
                &&& !e.is_excluded
                &&& !e.is_suspended
                &&& exists|pid: u32| s.process_map.contains_key(pid) && #[trigger] s.process_map[pid] == e
                &&& forall|k: int|
                    0 <= k < s.config.excluded_processes.len() ==> lowered(
                        #[trigger] s.config.excluded_processes[k],
                    ) != lowered(e.name@)
                &&& s.active_profile matches ProfileView::Custom(own) ==> forall|k: int|
                    0 <= k < own.excluded_apps.len() ==> lowered(#[trigger] own.excluded_apps[k])
                        != lowered(e.name@)
                &&& s.session_excluded matches Some(spared) ==> lowered(spared) != lowered(e.name@)
            },
        forall|i: int, j: int|
            0 <= i < j < list.len() ==> (#[trigger] list[i]).ram_bytes >= (
            #[trigger] list[j]).ram_bytes,
{
    let m = s.process_map;
    let keys = choose|keys: Seq<u32>|
        enumerates(keys, m, is_trim_target(s, min_idle_secs)) && list == #[trigger] entries_of(
            m,
            keys,
        );
    assert forall|pid: u32|
        m.contains_key(pid) && m[pid].idle_seconds >= min_idle_secs && !m[pid].is_protected
            && !m[pid].is_excluded && !m[pid].is_suspended && (forall|k: int|
            0 <= k < s.config.excluded_processes.len() ==> lowered(
                #[trigger] s.config.excluded_processes[k],
            ) != lowered(m[pid].name@)) && (s.active_profile matches ProfileView::Custom(own)
            ==> forall|k: int|
            0 <= k < own.excluded_apps.len() ==> lowered(#[trigger] own.excluded_apps[k])
                != lowered(m[pid].name@)) && (s.session_excluded matches Some(spared) ==> lowered(
            spared,
        ) != lowered(m[pid].name@)) implies list.contains(#[trigger] m[pid]) by {
        lemma_spared(s, m[pid].name@);
        assert(keys.contains(pid));
        let i = choose|i: int| 0 <= i < keys.len() && keys[i] == pid;
        assert(list[i] == m[pid]);
    }
    assert forall|i: int| 0 <= i < list.len() implies {
        let e = #[trigger] list[i];
        &&& e.idle_seconds >= min_idle_secs
        &&& !e.is_protected
        &&& !e.is_excluded
        &&& !e.is_suspended
        &&& exists|pid: u32| m.contains_key(pid) && #[trigger] m[pid] == e
        &&& forall|k: int|
            0 <= k < s.config.excluded_processes.len() ==> lowered(
                #[trigger] s.config.excluded_processes[k],
            ) != lowered(e.name@)
        &&& s.active_profile matches ProfileView::Custom(own) ==> forall|k: int|
            0 <= k < own.excluded_apps.len() ==> lowered(#[trigger] own.excluded_apps[k])
                != lowered(e.name@)
        &&& s.session_excluded matches Some(spared) ==> lowered(spared) != lowered(e.name@)
    } by {
        assert(keys.contains(keys[i]));
        assert(m[keys[i]] == list[i]);
        lemma_spared(s, list[i].name@);
    }
}

/// Who spares a name.
proof fn lemma_spared(s: AppStateView, name: Seq<char>)
    ensures
        !is_spared(s, name) <==> (forall|k: int|
            0 <= k < s.config.excluded_processes.len() ==> lowered(
                #[trigger] s.config.excluded_processes[k],
            ) != lowered(name)) && (s.active_profile matches ProfileView::Custom(own) ==> forall|
            k: int,
        |
            0 <= k < own.excluded_apps.len() ==> lowered(#[trigger] own.excluded_apps[k]) != lowered(
                name,
            )) && (s.session_excluded matches Some(spared) ==> lowered(spared) != lowered(name)),
{
    let lower = lowered(name);
    let names = excluded_names(s);
    let user = s.config.excluded_processes;
    let own = profile_exclusions(s.active_profile);
    assert(names.len() >= user.len() + own.len());
    assert forall|k: int| 0 <= k < user.len() implies names[k] == lowered(#[trigger] user[k]) by {}
    assert forall|k: int| 0 <= k < own.len() implies names[user.len() + k] == lowered(
        #[trigger] own[k],
    ) by {}
    if is_spared(s, name) {
        let i = choose|i: int| 0 <= i < names.len() && names[i] == lower;
        if i < user.len() {
            assert(lowered(user[i]) == lower);
        } else if i < user.len() + own.len() {
            assert(lowered(own[i - user.len()]) == lower);
        }
    } else {
        assert forall|k: int| 0 <= k < user.len() implies lowered(#[trigger] user[k]) != lower by {
            assert(names[k] == lowered(user[k]));
        }
        assert forall|k: int| 0 <= k < own.len() implies lowered(#[trigger] own[k]) != lower by {
            assert(names[user.len() + k] == lowered(own[k]));
        }
        if let Some(spared) = s.session_excluded {
            assert(names[names.len() - 1] == lowered(spared));
        }
    }
}

/// The application spared for the Focus session is not trimmed, whatever the
/// case of its name.
pub proof fn the_session_application_is_spared(
    s: AppStateView,
    name: Seq<char>,
    list: Seq<ProcessEntry>,
    min_idle_secs: u64,
)
    requires
        s.session_excluded matches Some(spared) && lowered(spared) == lowered(name),
        is_trim_plan(list, s, min_idle_secs),
    ensures
        is_spared(s, name),
        forall|i: int| 0 <= i < list.len() ==> lowered((#[trigger] list[i]).name@) != lowered(name),
{
    let names = excluded_names(s);
    assert(names[names.len() - 1] == lowered(name));
    a_plan_holds_no_spared_name(list, s, min_idle_secs, name);
}

/// A plan holds no process of a spared name.
pub proof fn a_plan_holds_no_spared_name(
    list: Seq<ProcessEntry>,
    s: AppStateView,
    min_idle_secs: u64,
    name: Seq<char>,
)
    requires
        is_spared(s, name),
        is_trim_plan(list, s, min_idle_secs),
    ensures
        forall|i: int| 0 <= i < list.len() ==> lowered((#[trigger] list[i]).name@) != lowered(name),
{
    let m = s.process_map;
    let keys = choose|keys: Seq<u32>|
        enumerates(keys, m, is_trim_target(s, min_idle_secs)) && list == #[trigger] entries_of(
            m,
            keys,
        );
    assert forall|i: int| 0 <= i < list.len() implies lowered((#[trigger] list[i]).name@)
        != lowered(name) by {
        assert(keys.contains(keys[i]));
        assert(is_trim_target(s, min_idle_secs)(m[keys[i]]));
    }
}

// ---------------------------------------------------------------------------
// Summing up a trim
// ---------------------------------------------------------------------------

/// What came of trimming one process.
#[derive(Debug)]
pub struct TrimOutcome {
    /// The process.
    pub pid: u32,
    /// The name it is recorded under.
    pub name: String,
    /// The bytes it gave back, or why it was not trimmed.
    pub freed: Result<u64, TrimError>,
}

/// The outcome for one process as plain mathematical values.
#[verifier::ext_equal]
pub struct TrimOutcomeView {
    pub pid: u32,
    pub name: Seq<char>,
    pub freed: Result<u64, TrimError>,
}

impl View for TrimOutcome {
    type V = TrimOutcomeView;

    open spec fn view(&self) -> TrimOutcomeView {
        TrimOutcomeView { pid: self.pid, name: self.name@, freed: self.freed }
    }
}

/// The outcomes of a list.
pub open spec fn outcome_views(list: Seq<TrimOutcome>) -> Seq<TrimOutcomeView> {
    Seq::new(list.len(), |i: int| list[i]@)
}

/// The bytes that all processes together gave back.
pub open spec fn freed_total(outcomes: Seq<TrimOutcomeView>) -> nat
    decreases outcomes.len(),
{
    if outcomes.len() == 0 {
        0
    } else {
        freed_total(outcomes.drop_last()) + match outcomes.last().freed {
            Ok(bytes) => bytes as nat,
            Err(_) => 0,
        }
    }
}

/// The processes that were trimmed, in order.
pub open spec fn trimmed_pids(outcomes: Seq<TrimOutcomeView>) -> Seq<u32>
    decreases outcomes.len(),
{
    if outcomes.len() == 0 {
        Seq::empty()
    } else if outcomes.last().freed is Ok {
        trimmed_pids(outcomes.drop_last()).push(outcomes.last().pid)
    } else {
        trimmed_pids(outcomes.drop_last())
    }
}

/// The records of the processes that gave something back, in order.
pub open spec fn trim_records(outcomes: Seq<TrimOutcomeView>) -> Seq<ProcessTrimRecordView>
    decreases outcomes.len(),
{
    if outcomes.len() == 0 {
        Seq::empty()
    } else {
        let rest = trim_records(outcomes.drop_last());
        match outcomes.last().freed {
            Ok(bytes) => if bytes > 0 {
                rest.push(
                    ProcessTrimRecordView { name: outcomes.last().name, freed_bytes: bytes },
                )
            } else {
                rest
            },
            Err(_) => rest,
        }
    }
}

/// The totals can be counted in the fields of a summary.
pub open spec fn totals_fit(outcomes: Seq<TrimOutcomeView>) -> bool {
    freed_total(outcomes) <= u64::MAX && trimmed_pids(outcomes).len() <= u32::MAX
}

/// The summary of a trim.
pub open spec fn tallied(outcomes: Seq<TrimOutcomeView>, timestamp: Timestamp) -> TrimResultView {
    TrimResultView {
        freed_bytes: freed_total(outcomes) as u64,
        processes_trimmed: trimmed_pids(outcomes).len() as u32,
        timestamp,
        unique_pids: trimmed_pids(outcomes),
        per_process: trim_records(outcomes),
    }
}

proof fn lemma_totals_grow(outcomes: Seq<TrimOutcomeView>, n: int)
    requires
        0 <= n <= outcomes.len(),
    ensures
        freed_total(outcomes.take(n)) <= freed_total(outcomes),
        trimmed_pids(outcomes.take(n)).len() <= trimmed_pids(outcomes).len(),
    decreases outcomes.len() - n,
{
    if n < outcomes.len() {
        lemma_totals_grow(outcomes, n + 1);
        assert(outcomes.take(n + 1).drop_last() =~= outcomes.take(n));
    } else {
        assert(outcomes.take(n) =~= outcomes);
    }
}

/// Sums up a trim.
pub fn tally(outcomes: &Vec<TrimOutcome>, timestamp: Timestamp) -> (r: TrimResult)
    requires
        totals_fit(outcome_views(outcomes@)),
    ensures
        r@ == tallied(outcome_views(outcomes@), timestamp),
{
    let ghost all = outcome_views(outcomes@);
    let mut freed_bytes: u64 = 0;
    let mut processes_trimmed: u32 = 0;
    let mut unique_pids: Vec<u32> = Vec::new();
    let mut per_process: Vec<ProcessTrimRecord> = Vec::new();
    let mut i: usize = 0;
    assert(record_views(per_process@) =~= trim_records(all.take(0)));
    while i < outcomes.len()
        invariant
            i <= outcomes@.len(),
            all == outcome_views(outcomes@),
            totals_fit(all),
            freed_bytes == freed_total(all.take(i as int)),
            processes_trimmed == trimmed_pids(all.take(i as int)).len(),
            unique_pids@ == trimmed_pids(all.take(i as int)),
            record_views(per_process@) == trim_records(all.take(i as int)),
        decreases outcomes@.len() - i,
    {
        proof {
            lemma_totals_grow(all, i + 1);
            assert(all.take(i + 1).drop_last() =~= all.take(i as int));
            assert(all.take(i + 1).last() == outcomes@[i as int]@);
        }
        let outcome: &TrimOutcome = &outcomes[i];
        if let Ok(freed) = outcome.freed {
            freed_bytes = freed_bytes + freed;
            processes_trimmed = processes_trimmed + 1;
            unique_pids.push(outcome.pid);
            if freed > 0 {
                let ghost before = per_process@;
                per_process.push(
                    ProcessTrimRecord { name: outcome.name.clone(), freed_bytes: freed },
                );
                assert(record_views(per_process@) =~= record_views(before).push(
                    ProcessTrimRecordView { name: outcome.name@, freed_bytes: freed },
                ));
            }
        }
        i = i + 1;
    }
    assert(all.take(i as int) =~= all);
    TrimResult { freed_bytes, processes_trimmed, timestamp, unique_pids, per_process }
}

/// One more outcome changes a summary by that outcome: a process that was trimmed
/// adds what it gave back and counts once more, and has a record where it gave
/// something back; one that was not trimmed changes nothing.
pub proof fn a_summary_adds_up(
    outcomes: Seq<TrimOutcomeView>,
    last: TrimOutcomeView,
    timestamp: Timestamp,
)
    requires
        totals_fit(outcomes.push(last)),
    ensures
        ({
            let before = tallied(outcomes, timestamp);
            let after = tallied(outcomes.push(last), timestamp);
            &&& after.timestamp == timestamp
            &&& last.freed matches Ok(bytes) ==> {
                &&& after.freed_bytes == before.freed_bytes + bytes
                &&& after.processes_trimmed == before.processes_trimmed + 1
                &&& after.unique_pids == before.unique_pids.push(last.pid)
                &&& bytes > 0 ==> after.per_process == before.per_process.push(
                    ProcessTrimRecordView { name: last.name, freed_bytes: bytes },
                )
                &&& bytes == 0 ==> after.per_process == before.per_process
            }
            &&& last.freed is Err ==> after == before
        }),
        tallied(Seq::empty(), timestamp).freed_bytes == 0,
        tallied(Seq::empty(), timestamp).processes_trimmed == 0,
        tallied(Seq::empty(), timestamp).unique_pids.len() == 0,
        tallied(Seq::empty(), timestamp).per_process.len() == 0,
{
    assert(outcomes.push(last).drop_last() =~= outcomes);
    assert(outcomes.push(last).last() == last);
}

/// Where no process was visited twice, a summary counts just those that were
/// trimmed, once each.
pub proof fn a_summary_counts_no_process_twice(outcomes: Seq<TrimOutcomeView>, timestamp: Timestamp)
    requires
        forall|i: int, j: int|
            0 <= i < j < outcomes.len() ==> (#[trigger] outcomes[i]).pid != (#[trigger] outcomes[j]).pid,
    ensures
        tallied(outcomes, timestamp).unique_pids.no_duplicates(),
        forall|pid: u32| #[trigger]
            tallied(outcomes, timestamp).unique_pids.contains(pid) <==> exists|i: int|
                0 <= i < outcomes.len() && (#[trigger] outcomes[i]).pid == pid && outcomes[i].freed is Ok,
    decreases outcomes.len(),
{
    if outcomes.len() > 0 {
        let front = outcomes.drop_last();
        let last = outcomes.last();
        assert forall|i: int, j: int| 0 <= i < j < front.len() implies (#[trigger] front[i]).pid != (
        #[trigger] front[j]).pid by {
            assert(outcomes[i].pid != outcomes[j].pid);
        }
        a_summary_counts_no_process_twice(front, timestamp);
        let rest = trimmed_pids(front);
        let all = trimmed_pids(outcomes);
        assert forall|pid: u32| #[trigger] all.contains(pid) implies exists|i: int|
            0 <= i < outcomes.len() && (#[trigger] outcomes[i]).pid == pid && outcomes[i].freed is Ok by {
            if rest.contains(pid) {
                assert(tallied(front, timestamp).unique_pids.contains(pid));
                let i = choose|i: int|
                    0 <= i < front.len() && (#[trigger] front[i]).pid == pid && front[i].freed is Ok;
                assert(outcomes[i].pid == pid);
            } else {
                let k = choose|k: int| 0 <= k < all.len() && all[k] == pid;
                if k < rest.len() {
                    assert(rest[k] == pid);
                }
                assert(outcomes[outcomes.len() - 1].pid == pid);
            }
        }
        assert forall|pid: u32|
            (exists|i: int|
                0 <= i < outcomes.len() && (#[trigger] outcomes[i]).pid == pid
                    && outcomes[i].freed is Ok) implies #[trigger] all.contains(pid) by {
            let i = choose|i: int|
                0 <= i < outcomes.len() && (#[trigger] outcomes[i]).pid == pid && outcomes[i].freed is Ok;
            if i < front.len() {
                assert(front[i].pid == pid && front[i].freed is Ok);
                assert(tallied(front, timestamp).unique_pids.contains(pid));
                let k = choose|k: int| 0 <= k < rest.len() && rest[k] == pid;
                assert(all[k] == pid);
            } else {
                assert(all[all.len() - 1] == pid);
            }
        }
        if last.freed is Ok {
            if rest.contains(last.pid) {
                assert(tallied(front, timestamp).unique_pids.contains(last.pid));
                let i = choose|i: int|
                    0 <= i < front.len() && (#[trigger] front[i]).pid == last.pid && front[i].freed is Ok;
                assert(outcomes[i].pid != outcomes[outcomes.len() - 1].pid);
            }
            assert(all =~= rest.push(last.pid));
        }
    }
}

/// A trim that follows its plan reports each process at most once, and only
/// processes that may be trimmed.
pub proof fn a_trim_reports_only_planned_processes(
    list: Seq<ProcessEntry>,
    s: AppStateView,
    min_idle_secs: u64,
    outcomes: Seq<TrimOutcomeView>,
    timestamp: Timestamp,
)
    requires
        s.consistent(),
        is_trim_plan(list, s, min_idle_secs),
        outcomes.len() == list.len(),
        forall|i: int| 0 <= i < list.len() ==> (#[trigger] outcomes[i]).pid == list[i].pid,
    ensures
        tallied(outcomes, timestamp).unique_pids.no_duplicates(),
        forall|pid: u32| #[trigger]
            tallied(outcomes, timestamp).unique_pids.contains(pid) ==> s.process_map.contains_key(
                pid,
            ) && is_trim_target(s, min_idle_secs)(s.process_map[pid])
                && !s.suspended_set.contains(pid),
{
    trim_plan_spares_what_it_must(list, s, min_idle_secs);
    let pids = pids_of(list);
    assert forall|i: int, j: int| 0 <= i < j < outcomes.len() implies (
    #[trigger] outcomes[i]).pid != (#[trigger] outcomes[j]).pid by {
        assert(pids[i] != pids[j]);
    }
    a_summary_counts_no_process_twice(outcomes, timestamp);
    assert forall|pid: u32| #[trigger]
        tallied(outcomes, timestamp).unique_pids.contains(pid) implies s.process_map.contains_key(
        pid,
    ) && is_trim_target(s, min_idle_secs)(s.process_map[pid]) && !s.suspended_set.contains(pid) by {
        let i = choose|i: int|
            0 <= i < outcomes.len() && (#[trigger] outcomes[i]).pid == pid && outcomes[i].freed is Ok;
        let e = list[i];
        assert(s.process_map[e.pid] == e);
    }
}

// ---------------------------------------------------------------------------
// Recording a trim
// ---------------------------------------------------------------------------

/// How many entries the history may hold: at least one.
pub open spec fn history_capacity(limit: usize) -> int {
    if limit == 0 {
        1
    } else {
        limit as int
    }
}

/// The newest entries of a history, as many as it may hold.
pub open spec fn newest(history: Seq<TrimEventView>, limit: usize) -> Seq<TrimEventView> {
    let capacity = history_capacity(limit);
    if history.len() > capacity {
        history.skip(history.len() - capacity)
    } else {
        history
    }
}

fn cap_history(history: &mut Vec<TrimEvent>, limit: usize)
    ensures
        event_views(final(history)@) == newest(event_views(old(history)@), limit),
{
    let capacity: usize = if limit == 0 {
        1
    } else {
        limit
    };
    let ghost before = history@;
    if history.len() > capacity {
        let excess: usize = history.len() - capacity;
        let kept: Vec<TrimEvent> = history.split_off(excess);
        *history = kept;
        assert(history@ =~= before.skip(excess as int));
    }
    assert(event_views(history@) =~= newest(event_views(before), limit));
}

/// A trim is worth an entry in the history: it freed something or reached a
/// process.
pub open spec fn is_notable(result: TrimResultView) -> bool {
    result.freed_bytes > 0 || result.processes_trimmed > 0
}

/// Whether a trim is worth an entry in the history.
pub fn notable(result: &TrimResult) -> (r: bool)
    ensures
        r == is_notable(result@),
{
    result.freed_bytes > 0 || result.processes_trimmed > 0
}

/// The history behind a trim: with an entry for it where it is notable, and
/// with no more entries than allowed.
pub open spec fn with_event(
    s: AppStateView,
    result: TrimResultView,
    trigger: TrimTrigger,
) -> Seq<TrimEventView> {
    newest(
        if is_notable(result) {
            s.trim_history.push(TrimEventView { result, trigger })
        } else {
            s.trim_history
        },
        s.config.trim_history_limit,
    )
}

/// Enters a summary into the history.
pub fn record_event(state: &mut AppState, result: &TrimResult, trigger: TrimTrigger)
    ensures
        final(state)@ == (AppStateView {
            trim_history: with_event(old(state)@, result@, trigger),
            ..old(state)@
        }),
{
    let ghost before = state@;
    if notable(result) {
        let ghost list = state.trim_history@;
        state.trim_history.push(TrimEvent { result: result.clone(), trigger });
        assert(event_views(state.trim_history@) =~= event_views(list).push(
            TrimEventView { result: result@, trigger },
        ));
    }
    let limit: usize = state.config.trim_history_limit;
    cap_history(&mut state.trim_history, limit);
    assert(state@.trim_history == with_event(before, result@, trigger));
}

/// The state behind a trim of idle processes.
pub open spec fn with_trim(
    s: AppStateView,
    result: TrimResultView,
    trigger: TrimTrigger,
) -> AppStateView {
    AppStateView {
        trim_history: with_event(s, result, trigger),
        last_trim_result: Some(result),
        ..s
    }
}

/// Sums up a trim of idle processes and records it: in the history where it is
/// notable, and as the last trim in any case. `outcomes` tells what came of each
/// process of the plan.
pub fn soft_trim_all(
    state: &mut AppState,
    outcomes: &Vec<TrimOutcome>,
    trigger: TrimTrigger,
    timestamp: Timestamp,
) -> (r: TrimResult)
    requires
        totals_fit(outcome_views(outcomes@)),
    ensures
        r@ == tallied(outcome_views(outcomes@), timestamp),
        final(state)@ == with_trim(old(state)@, r@, trigger),
        old(state)@.consistent() ==> final(state)@.consistent(),
{
    let result: TrimResult = tally(outcomes, timestamp);
    record_event(state, &result, trigger);
    state.last_trim_result = Some(result.clone());
    result
}

/// The history never holds more entries than allowed, a notable trim is its
/// last entry, and what it held before keeps its order.
pub proof fn history_keeps_the_newest(s: AppStateView, result: TrimResultView, trigger: TrimTrigger)
    ensures
        with_trim(s, result, trigger).trim_history.len() <= history_capacity(
            s.config.trim_history_limit,
        ),
        is_notable(result) ==> with_trim(s, result, trigger).trim_history.last() == (
        TrimEventView { result, trigger }),
        is_notable(result) ==> with_trim(s, result, trigger).trim_history.drop_last().is_suffix_of(
            s.trim_history,
        ),
        !is_notable(result) ==> with_trim(s, result, trigger).trim_history.is_suffix_of(
            s.trim_history,
        ),
{
    let after = with_trim(s, result, trigger).trim_history;
    if is_notable(result) {
        let front = after.drop_last();
        assert(s.trim_history.subrange(
            s.trim_history.len() - front.len(),
            s.trim_history.len() as int,
        ) =~= front);
    } else {
        assert(s.trim_history.subrange(
            s.trim_history.len() - after.len(),
            s.trim_history.len() as int,
        ) =~= after);
    }
}

/// A trim drops nothing from the history that fits: an entry is added where the
/// trim is notable, and then just so many of the oldest go that the limit is kept,
/// at least one entry being allowed.
pub proof fn a_trim_drops_only_what_does_not_fit(
    s: AppStateView,
    result: TrimResultView,
    trigger: TrimTrigger,
)
    ensures
        ({
            let limit: int = if s.config.trim_history_limit > 1 {
                s.config.trim_history_limit as int
            } else {
                1
            };
            let notable = result.freed_bytes > 0 || result.processes_trimmed > 0;
            let entry = TrimEventView { result, trigger };
            let all = if notable {
                s.trim_history.push(entry)
            } else {
                s.trim_history
            };
            let after = with_trim(s, result, trigger);
            &&& after.trim_history.len() == (if all.len() < limit {
                all.len() as int
            } else {
                limit
            })
            &&& forall|k: int|
                0 <= k < after.trim_history.len() ==> #[trigger] after.trim_history[k] == all[all.len()
                    - after.trim_history.len() + k]
            &&& after.last_trim_result == Some(result)
            &&& after.process_map == s.process_map && after.suspended_set == s.suspended_set
            &&& after.config == s.config && after.active_profile == s.active_profile
            &&& after.last_auto_trim_at == s.last_auto_trim_at
            &&& after.session_excluded == s.session_excluded && after.ram_stats == s.ram_stats
        }),
{
}

/// What came of looking for the history file.
#[derive(Debug)]
pub enum HistoryReading {
    /// The place where it lives could not be told.
    NoLocation,
    /// There is no such file.
    Missing,
    /// The file is there and could not be read.
    Unreadable,
    /// The file does not hold a history.
    Corrupt,
    /// The file holds these entries.
    Parsed(Vec<TrimEvent>),
}

/// The history to start with; an empty one where none could be read.
pub fn load_history(reading: HistoryReading) -> (r: Vec<TrimEvent>)
    ensures
        match reading {
            HistoryReading::Parsed(events) => r == events,
            _ => r@ == Seq::<TrimEvent>::empty(),
        },
{
    match reading {
        HistoryReading::Parsed(events) => events,
        _ => Vec::new(),
    }
}

/// An error names the process, and the system error code where there is one.
pub proof fn trim_errors_name_the_process(pid: u32, code: u32)
    ensures
        TrimError::AccessDenied(pid).text() == "Access denied for PID "@ + decimal(pid as nat),
        TrimError::TrimFailed(pid, code).text() == "Trim failed for PID "@ + decimal(pid as nat)
            + ": "@ + decimal(code as nat),
        TrimError::ProcessGone(pid).text() == "Process not found: PID "@ + decimal(pid as nat),
{
}

} // verus!
