//! Hard suspension: freezing and thawing processes, and remembering which are
//! frozen.

use std::collections::HashSet;

use vstd::prelude::*;
use vstd::string::*;

use crate::engine::process_table::members;
use crate::state::app_state::{AppState, AppStateView, ProcessEntry};
use crate::text::{concat2, decimal, decimal_text, joined, status_code, status_text};

verus! {

broadcast use vstd::std_specs::hash::group_hash_axioms;

// ---------------------------------------------------------------------------
// Errors
// ---------------------------------------------------------------------------

/// Why a process could not be suspended or resumed.
#[derive(Debug, Clone, Copy, PartialEq, Eq, Structural)]
pub enum SuspendError {
    /// The system offers no way to suspend.
    NotAvailable,
    /// The process could not be opened.
    AccessDenied(u32),
    /// Suspending failed with a status code.
    SuspendFailed(u32, i32),
    /// Resuming failed with a status code.
    ResumeFailed(u32, i32),
}

impl SuspendError {
    /// The text of the error.
    pub open spec fn text(self) -> Seq<char> {
        match self {
            SuspendError::NotAvailable => "NtSuspendProcess not available on this system"@,
            SuspendError::AccessDenied(pid) => "Access denied for PID "@ + decimal(pid as nat),
            SuspendError::SuspendFailed(pid, status) => "Suspend failed for PID "@ + decimal(
                pid as nat,
            ) + ": NTSTATUS "@ + status_code(status),
            SuspendError::ResumeFailed(pid, status) => "Resume failed for PID "@ + decimal(
                pid as nat,
            ) + ": NTSTATUS "@ + status_code(status),
        }
    }

    /// The text of the error.
    pub fn message(&self) -> (r: String)
        ensures
            r@ == self.text(),
    {
        match self {
            SuspendError::NotAvailable => "NtSuspendProcess not available on this system".to_owned(),
            SuspendError::AccessDenied(pid) => concat2(
                "Access denied for PID ",
                decimal_text(*pid as u64).as_str(),
            ),
            SuspendError::SuspendFailed(pid, status) => {
                let mut r: String = concat2(
                    "Suspend failed for PID ",
                    decimal_text(*pid as u64).as_str(),
                );
                r.append(": NTSTATUS ");
                r.append(status_text(*status).as_str());
                r
            },
            SuspendError::ResumeFailed(pid, status) => {
                let mut r: String = concat2(
                    "Resume failed for PID ",
                    decimal_text(*pid as u64).as_str(),
                );
                r.append(": NTSTATUS ");
                r.append(status_text(*status).as_str());
                r
            },
        }
    }
}

/// What was found of what suspending needs.
#[derive(Debug, Clone, Copy, PartialEq, Eq, Structural)]
pub struct SuspenderLookup {
    /// The system library.
    pub library: bool,
    /// The function that suspends a process.
    pub suspend: bool,
    /// The function that resumes a process.
    pub resume: bool,
}

/// Everything that suspending needs was found.
pub open spec fn can_suspend(found: SuspenderLookup) -> bool {
    found.library && found.suspend && found.resume
}

/// Whether processes can be suspended, given what was found.
pub fn load_suspender(found: SuspenderLookup) -> (r: Result<(), SuspendError>)
    ensures
        r == (if can_suspend(found) {
            Ok::<(), SuspendError>(())
        } else {
            Err::<(), SuspendError>(SuspendError::NotAvailable)
        }),
        r is Ok <==> found.library && found.suspend && found.resume,
{
    if found.library && found.suspend && found.resume {
        Ok(())
    } else {
        Err(SuspendError::NotAvailable)
    }
}

// ---------------------------------------------------------------------------
// Bookkeeping
// ---------------------------------------------------------------------------

/// The process map with the flag of one process set; unchanged where the
/// process is not listed.
pub open spec fn flagged(
    m: Map<u32, ProcessEntry>,
    pid: u32,
    is_suspended: bool,
) -> Map<u32, ProcessEntry> {
    if m.contains_key(pid) {
        m.insert(pid, ProcessEntry { is_suspended, ..m[pid] })
    } else {
        m
    }
}

/// Sets the flag of one process, where it is listed.
pub fn set_flag(state: &mut AppState, pid: u32, is_suspended: bool)
    ensures
        final(state)@ == (AppStateView {
            process_map: flagged(old(state)@.process_map, pid, is_suspended),
            ..old(state)@
        }),
{
    let ghost m = state.process_map@;
    if let Some(e) = state.process_map.remove(&pid) {
        let mut e = e;
        e.is_suspended = is_suspended;
        state.process_map.insert(pid, e);
    }
    assert(state.process_map@ =~= flagged(m, pid, is_suspended));
}

/// The state once a process counts as suspended.
pub open spec fn suspended_state(s: AppStateView, pid: u32) -> AppStateView {
    AppStateView {
        suspended_set: s.suspended_set.insert(pid),
        process_map: flagged(s.process_map, pid, true),
        ..s
    }
}

/// The state once a process counts as running.
pub open spec fn resumed_state(s: AppStateView, pid: u32) -> AppStateView {
    AppStateView {
        suspended_set: s.suspended_set.remove(pid),
        process_map: flagged(s.process_map, pid, false),
        ..s
    }
}

fn mark_suspended(state: &mut AppState, pid: u32)
    ensures
        final(state)@ == suspended_state(old(state)@, pid),
{
    state.suspended_set.insert(pid);
    set_flag(state, pid, true);
}

fn mark_resumed(state: &mut AppState, pid: u32)
    ensures
        final(state)@ == resumed_state(old(state)@, pid),
{
    state.suspended_set.remove(&pid);
    set_flag(state, pid, false);
}

/// Suspending or resuming a process keeps its flag in step with the set.
pub proof fn suspension_keeps_the_state_consistent(s: AppStateView, pid: u32)
    requires
        s.consistent(),
    ensures
        suspended_state(s, pid).consistent(),
        resumed_state(s, pid).consistent(),
{
}

/// Resuming a process undoes its suspension.
pub proof fn resuming_undoes_suspending(s: AppStateView, pid: u32)
    requires
        s.consistent(),
        !s.suspended_set.contains(pid),
    ensures
        resumed_state(suspended_state(s, pid), pid) == s,
{
    let there = suspended_state(s, pid);
    let back = resumed_state(there, pid);
    assert(back.suspended_set =~= s.suspended_set);
    assert(back.process_map =~= s.process_map) by {
        if s.process_map.contains_key(pid) {
            assert(back.process_map[pid] == s.process_map[pid]);
        }
    }
}

/// Suspending a process puts it into the set and sets its flag, resuming it takes
/// it out and clears the flag; nothing else is touched.
pub proof fn suspension_touches_one_process(s: AppStateView, pid: u32)
    ensures
        ({
            let there = suspended_state(s, pid);
            let back = resumed_state(s, pid);
            &&& forall|p: u32| #[trigger]
                there.suspended_set.contains(p) <==> s.suspended_set.contains(p) || p == pid
            &&& forall|p: u32| #[trigger]
                back.suspended_set.contains(p) <==> s.suspended_set.contains(p) && p != pid
            &&& there.process_map.dom() == s.process_map.dom()
            &&& back.process_map.dom() == s.process_map.dom()
            &&& forall|p: u32|
                s.process_map.contains_key(p) ==> (#[trigger] there.process_map[p]) == (ProcessEntry {
                    is_suspended: p == pid || s.process_map[p].is_suspended,
                    ..s.process_map[p]
                })
            &&& forall|p: u32|
                s.process_map.contains_key(p) ==> (#[trigger] back.process_map[p]) == (ProcessEntry {
                    is_suspended: p != pid && s.process_map[p].is_suspended,
                    ..s.process_map[p]
                })
            &&& there == (AppStateView {
                suspended_set: there.suspended_set,
                process_map: there.process_map,
                ..s
            })
            &&& back == (AppStateView {
                suspended_set: back.suspended_set,
                process_map: back.process_map,
                ..s
            })
        }),
{
    assert(suspended_state(s, pid).process_map.dom() =~= s.process_map.dom());
    assert(resumed_state(s, pid).process_map.dom() =~= s.process_map.dom());
}

// ---------------------------------------------------------------------------
// Suspending one process
// ---------------------------------------------------------------------------

/// How far a suspension has come.
#[derive(Debug, Clone, Copy, PartialEq, Eq, Structural)]
pub enum SuspendPhase {
    Start,
    Opening,
    Suspending,
    /// The process is being closed; this is the status of the call.
    Closing(i32),
    Saving,
    Returned,
}

/// What to do next.
#[derive(Debug, Clone, Copy, PartialEq, Eq)]
pub enum SuspendAction {
    /// Open the process for suspending.
    Open,
    /// Suspend it.
    Suspend,
    /// Close it.
    Close,
    /// Write the set of suspended processes to disk.
    SaveSet,
    /// Done.
    Return(Result<(), SuspendError>),
}

/// What came of the last action.
#[derive(Debug, Clone, Copy, PartialEq, Eq, Structural)]
pub enum SuspendReply {
    /// Nothing was done yet.
    Begin,
    /// Whether the process could be opened.
    Opened(bool),
    /// The status of the call; negative where it failed.
    Status(i32),
    /// The action was carried out.
    Done,
}

/// The reply answers what the phase asked for.
pub open spec fn suspend_reply_fits(phase: SuspendPhase, reply: SuspendReply) -> bool {
    match phase {
        SuspendPhase::Start => reply is Begin,
        SuspendPhase::Opening => reply is Opened,
        SuspendPhase::Suspending => reply is Status,
        SuspendPhase::Closing(_) => reply is Done,
        SuspendPhase::Saving => reply is Done,
        SuspendPhase::Returned => false,
    }
}

/// What the machine makes of a reply: the next phase and the next action.
pub open spec fn suspend_step(
    pid: u32,
    phase: SuspendPhase,
    reply: SuspendReply,
) -> (SuspendPhase, SuspendAction) {
    match (phase, reply) {
        (SuspendPhase::Start, _) => (SuspendPhase::Opening, SuspendAction::Open),
        (SuspendPhase::Opening, SuspendReply::Opened(true)) => (
            SuspendPhase::Suspending,
            SuspendAction::Suspend,
        ),
        (SuspendPhase::Opening, _) => (
            SuspendPhase::Returned,
            SuspendAction::Return(Err(SuspendError::AccessDenied(pid))),
        ),
        (SuspendPhase::Suspending, SuspendReply::Status(status)) => (
            SuspendPhase::Closing(status),
            SuspendAction::Close,
        ),
        (SuspendPhase::Closing(status), _) => if status < 0 {
            (
                SuspendPhase::Returned,
                SuspendAction::Return(Err(SuspendError::SuspendFailed(pid, status))),
            )
        } else {
            (SuspendPhase::Saving, SuspendAction::SaveSet)
        },
        (_, _) => (SuspendPhase::Returned, SuspendAction::Return(Ok(()))),
    }
}

/// The state behind a step: the process counts as suspended as soon as the call
/// succeeded and the process was closed.
pub open spec fn suspend_effect(s: AppStateView, pid: u32, phase: SuspendPhase) -> AppStateView {
    match phase {
        SuspendPhase::Closing(status) => if status < 0 {
            s
        } else {
            suspended_state(s, pid)
        },
        _ => s,
    }
}

/// One step of suspending a process: takes what came of the last action and
/// says what to do next.
pub fn hard_suspend(
    pid: u32,
    phase: &mut SuspendPhase,
    reply: SuspendReply,
    state: &mut AppState,
) -> (r: SuspendAction)
    requires
        suspend_reply_fits(*old(phase), reply),
    ensures
        (*final(phase), r) == suspend_step(pid, *old(phase), reply),
        final(state)@ == suspend_effect(old(state)@, pid, *old(phase)),
        old(state)@.consistent() ==> final(state)@.consistent(),
{
    match *phase {
        SuspendPhase::Start => {
            *phase = SuspendPhase::Opening;
            SuspendAction::Open
        },
        SuspendPhase::Opening => match reply {
            SuspendReply::Opened(true) => {
                *phase = SuspendPhase::Suspending;
                SuspendAction::Suspend
            },
            _ => {
                *phase = SuspendPhase::Returned;
                SuspendAction::Return(Err(SuspendError::AccessDenied(pid)))
            },
        },
        SuspendPhase::Suspending => {
            let status: i32 = match reply {
                SuspendReply::Status(status) => status,
                _ => 0,
            };
            *phase = SuspendPhase::Closing(status);
            SuspendAction::Close
        },
        SuspendPhase::Closing(status) => {
            if status < 0 {
                *phase = SuspendPhase::Returned;
                SuspendAction::Return(Err(SuspendError::SuspendFailed(pid, status)))
            } else {
                mark_suspended(state, pid);
                *phase = SuspendPhase::Saving;
                SuspendAction::SaveSet
            }
        },
        _ => {
            *phase = SuspendPhase::Returned;
            SuspendAction::Return(Ok(()))
        },
    }
}

/// The reply to the action that led into `phase`, where opening succeeds or not
/// and the call has a given status.
pub open spec fn suspend_answer(phase: SuspendPhase, opened: bool, status: i32) -> SuspendReply {
    match phase {
        SuspendPhase::Start => SuspendReply::Begin,
        SuspendPhase::Opening => SuspendReply::Opened(opened),
        SuspendPhase::Suspending => SuspendReply::Status(status),
        _ => SuspendReply::Done,
    }
}

/// How many actions are left at most.
pub open spec fn suspend_steps_left(phase: SuspendPhase) -> nat {
    match phase {
        SuspendPhase::Start => 5,
        SuspendPhase::Opening => 4,
        SuspendPhase::Suspending => 3,
        SuspendPhase::Closing(_) => 2,
        SuspendPhase::Saving => 1,
        SuspendPhase::Returned => 0,
    }
}

/// All actions of a suspension from `phase` on, and the state behind them.
pub open spec fn suspend_run(
    s: AppStateView,
    pid: u32,
    phase: SuspendPhase,
    opened: bool,
    status: i32,
) -> (AppStateView, Seq<SuspendAction>)
    decreases suspend_steps_left(phase),
{
    if phase is Returned {
        (s, Seq::empty())
    } else {
        let (next, action) = suspend_step(pid, phase, suspend_answer(phase, opened, status));
        let (end, rest) = suspend_run(
            suspend_effect(s, pid, phase),
            pid,
            next,
            opened,
            status,
        );
        (end, seq![action] + rest)
    }
}

/// What a suspension comes to.
pub open spec fn suspend_outcome(pid: u32, opened: bool, status: i32) -> Result<(), SuspendError> {
    if !opened {
        Err(SuspendError::AccessDenied(pid))
    } else if status < 0 {
        Err(SuspendError::SuspendFailed(pid, status))
    } else {
        Ok(())
    }
}

/// However the operating system answers, a suspension ends; a process that was
/// opened is closed; where it fails nothing changes, and where it succeeds the
/// process counts as suspended and the set is written to disk.
pub proof fn a_suspension_ends_and_is_recorded(
    s: AppStateView,
    pid: u32,
    opened: bool,
    status: i32,
)
    ensures
        ({
            let (end, run) = suspend_run(s, pid, SuspendPhase::Start, opened, status);
            let outcome = suspend_outcome(pid, opened, status);
            &&& run.last() == SuspendAction::Return(outcome)
            &&& run.contains(SuspendAction::Close) <==> opened
            &&& run.contains(SuspendAction::SaveSet) <==> outcome is Ok
            &&& outcome is Ok ==> end == suspended_state(s, pid)
            &&& outcome is Err ==> end == s
        }),
{
    reveal_with_fuel(suspend_run, 6);
    let (end, run) = suspend_run(s, pid, SuspendPhase::Start, opened, status);
    assert(run[0] == SuspendAction::Open);
    if opened {
        assert(run[1] == SuspendAction::Suspend);
        assert(run[2] == SuspendAction::Close);
        if status >= 0 {
            assert(run[3] == SuspendAction::SaveSet);
            assert(run.len() == 5);
        } else {
            assert(run.len() == 4);
        }
    } else {
        assert(run.len() == 2);
    }
}

// ---------------------------------------------------------------------------
// Resuming one process
// ---------------------------------------------------------------------------

/// How far a resumption has come.
#[derive(Debug, Clone, Copy, PartialEq, Eq, Structural)]
pub enum ResumePhase {
    Start,
    Probing,
    Opening,
    Resuming,
    /// The process is being closed; this is the status of the call.
    Closing(i32),
    Saving,
    Returned,
}

/// What to do next.
#[derive(Debug, Clone, Copy, PartialEq, Eq)]
pub enum ResumeAction {
    /// Find out whether the process still exists.
    Probe,
    /// Open the process for resuming.
    Open,
    /// Resume it.
    Resume,
    /// Close it.
    Close,
    /// Write the set of suspended processes to disk.
    SaveSet,
    /// Done.
    Return(Result<(), SuspendError>),
}

/// What came of the last action.
#[derive(Debug, Clone, Copy, PartialEq, Eq, Structural)]
pub enum ResumeReply {
    /// Nothing was done yet.
    Begin,
    /// Whether the process still exists.
    Alive(bool),
    /// Whether the process could be opened.
    Opened(bool),
    /// The status of the call; negative where it failed.
    Status(i32),
    /// The action was carried out.
    Done,
}

/// The reply answers what the phase asked for.
pub open spec fn resume_reply_fits(phase: ResumePhase, reply: ResumeReply) -> bool {
    match phase {
        ResumePhase::Start => reply is Begin,
        ResumePhase::Probing => reply is Alive,
        ResumePhase::Opening => reply is Opened,
        ResumePhase::Resuming => reply is Status,
        ResumePhase::Closing(_) => reply is Done,
        ResumePhase::Saving => reply is Done,
        ResumePhase::Returned => false,
    }
}

/// What the machine makes of a reply: the next phase and the next action.
pub open spec fn resume_step(
    s: AppStateView,
    pid: u32,
    phase: ResumePhase,
    reply: ResumeReply,
) -> (ResumePhase, ResumeAction) {
    match (phase, reply) {
        (ResumePhase::Start, _) => if s.suspended_set.contains(pid) {
            (ResumePhase::Probing, ResumeAction::Probe)
        } else {
            (ResumePhase::Returned, ResumeAction::Return(Ok(())))
        },
        (ResumePhase::Probing, ResumeReply::Alive(true)) => (
            ResumePhase::Opening,
            ResumeAction::Open,
        ),
        (ResumePhase::Probing, _) => (ResumePhase::Saving, ResumeAction::SaveSet),
        (ResumePhase::Opening, ResumeReply::Opened(true)) => (
            ResumePhase::Resuming,
            ResumeAction::Resume,
        ),
        (ResumePhase::Opening, _) => (
            ResumePhase::Returned,
            ResumeAction::Return(Err(SuspendError::AccessDenied(pid))),
        ),
        (ResumePhase::Resuming, ResumeReply::Status(status)) => (
            ResumePhase::Closing(status),
            ResumeAction::Close,
        ),
        (ResumePhase::Closing(status), _) => if status < 0 {
            (
                ResumePhase::Returned,
                ResumeAction::Return(Err(SuspendError::ResumeFailed(pid, status))),
            )
        } else {
            (ResumePhase::Saving, ResumeAction::SaveSet)
        },
        (_, _) => (ResumePhase::Returned, ResumeAction::Return(Ok(()))),
    }
}

/// The state behind a step: the process counts as running once it turned out to
/// be gone, or once the call succeeded and the process was closed.
pub open spec fn resume_effect(
    s: AppStateView,
    pid: u32,
    phase: ResumePhase,
    reply: ResumeReply,
) -> AppStateView {
    match (phase, reply) {
        (ResumePhase::Probing, ResumeReply::Alive(false)) => resumed_state(s, pid),
        (ResumePhase::Closing(status), _) => if status < 0 {
            s
        } else {
            resumed_state(s, pid)
        },
        (_, _) => s,
    }
}

/// One step of resuming a process: takes what came of the last action and says
/// what to do next. A process that is not suspended needs nothing.
pub fn hard_resume(
    pid: u32,
    phase: &mut ResumePhase,
    reply: ResumeReply,
    state: &mut AppState,
) -> (r: ResumeAction)
    requires
        resume_reply_fits(*old(phase), reply),
    ensures
        (*final(phase), r) == resume_step(old(state)@, pid, *old(phase), reply),
        final(state)@ == resume_effect(old(state)@, pid, *old(phase), reply),
        old(state)@.consistent() ==> final(state)@.consistent(),
{
    match *phase {
        ResumePhase::Start => {
            if state.suspended_set.contains(&pid) {
                *phase = ResumePhase::Probing;
                ResumeAction::Probe
            } else {
                *phase = ResumePhase::Returned;
                ResumeAction::Return(Ok(()))
            }
        },
        ResumePhase::Probing => match reply {
            ResumeReply::Alive(true) => {
                *phase = ResumePhase::Opening;
                ResumeAction::Open
            },
            _ => {
                mark_resumed(state, pid);
                *phase = ResumePhase::Saving;
                ResumeAction::SaveSet
            },
        },
        ResumePhase::Opening => match reply {
            ResumeReply::Opened(true) => {
                *phase = ResumePhase::Resuming;
                ResumeAction::Resume
            },
            _ => {
                *phase = ResumePhase::Returned;
                ResumeAction::Return(Err(SuspendError::AccessDenied(pid)))
            },
        },
        ResumePhase::Resuming => {
            let status: i32 = match reply {
                ResumeReply::Status(status) => status,
                _ => 0,
            };
            *phase = ResumePhase::Closing(status);
            ResumeAction::Close
        },
        ResumePhase::Closing(status) => {
            if status < 0 {
                *phase = ResumePhase::Returned;
                ResumeAction::Return(Err(SuspendError::ResumeFailed(pid, status)))
            } else {
                mark_resumed(state, pid);
                *phase = ResumePhase::Saving;
                ResumeAction::SaveSet
            }
        },
        _ => {
            *phase = ResumePhase::Returned;
            ResumeAction::Return(Ok(()))
        },
    }
}

/// How the operating system answers one resumption.
pub struct ResumeAnswers {
    pub alive: bool,
    pub opened: bool,
    pub status: i32,
}

/// The reply to the action that led into `phase`.
pub open spec fn resume_answer(phase: ResumePhase, answers: ResumeAnswers) -> ResumeReply {
    match phase {
        ResumePhase::Start => ResumeReply::Begin,
        ResumePhase::Probing => ResumeReply::Alive(answers.alive),
        ResumePhase::Opening => ResumeReply::Opened(answers.opened),
        ResumePhase::Resuming => ResumeReply::Status(answers.status),
        _ => ResumeReply::Done,
    }
}

/// How many actions are left at most.
pub open spec fn resume_steps_left(phase: ResumePhase) -> nat {
    match phase {
        ResumePhase::Start => 6,
        ResumePhase::Probing => 5,
        ResumePhase::Opening => 4,
        ResumePhase::Resuming => 3,
        ResumePhase::Closing(_) => 2,
        ResumePhase::Saving => 1,
        ResumePhase::Returned => 0,
    }
}

/// All actions of a resumption from `phase` on, and the state behind them.
pub open spec fn resume_run(
    s: AppStateView,
    pid: u32,
    phase: ResumePhase,
    answers: ResumeAnswers,
) -> (AppStateView, Seq<ResumeAction>)
    decreases resume_steps_left(phase),
{
    if phase is Returned {
        (s, Seq::empty())
    } else {
        let reply = resume_answer(phase, answers);
        let (next, action) = resume_step(s, pid, phase, reply);
        let (end, rest) = resume_run(resume_effect(s, pid, phase, reply), pid, next, answers);
        (end, seq![action] + rest)
    }
}

/// What a resumption of a suspended process comes to.
pub open spec fn resume_outcome(pid: u32, answers: ResumeAnswers) -> Result<(), SuspendError> {
    if !answers.alive {
        Ok(())
    } else if !answers.opened {
        Err(SuspendError::AccessDenied(pid))
    } else if answers.status < 0 {
        Err(SuspendError::ResumeFailed(pid, answers.status))
    } else {
        Ok(())
    }
}

/// However the operating system answers, a resumption ends. A process that is
/// not suspended is left alone; one that is gone is forgotten; one that was
/// opened is closed; where it fails nothing changes.
pub proof fn a_resumption_ends_and_is_recorded(s: AppStateView, pid: u32, answers: ResumeAnswers)
    ensures
        ({
            let (end, run) = resume_run(s, pid, ResumePhase::Start, answers);
            let outcome = resume_outcome(pid, answers);
            if s.suspended_set.contains(pid) {
                &&& run.last() == ResumeAction::Return(outcome)
                &&& run.contains(ResumeAction::Close) <==> answers.alive && answers.opened
                &&& run.contains(ResumeAction::SaveSet) <==> outcome is Ok
                &&& outcome is Ok ==> end == resumed_state(s, pid)
                &&& outcome is Err ==> end == s
            } else {
                run == seq![ResumeAction::Return(Ok(()))] && end == s
            }
        }),
{
    reveal_with_fuel(resume_run, 7);
    let (end, run) = resume_run(s, pid, ResumePhase::Start, answers);
    if s.suspended_set.contains(pid) {
        assert(run[0] == ResumeAction::Probe);
        if !answers.alive {
            assert(run[1] == ResumeAction::SaveSet);
            assert(run.len() == 3);
        } else {
            assert(run[1] == ResumeAction::Open);
            if answers.opened {
                assert(run[2] == ResumeAction::Resume);
                assert(run[3] == ResumeAction::Close);
                if answers.status >= 0 {
                    assert(run[4] == ResumeAction::SaveSet);
                    assert(run.len() == 6);
                } else {
                    assert(run.len() == 5);
                }
            } else {
                assert(run.len() == 3);
            }
        }
    } else {
        assert(run =~= seq![ResumeAction::Return(Ok(()))]);
    }
}

/// What a suspension comes to: a process that cannot be opened is left alone and
/// reported so; a status below zero is a failure and changes nothing; any other
/// status is a success, which is entered into the set and saved. Whatever was
/// opened is asked to suspend, and closed behind that.
pub proof fn a_suspension_reports_the_status(s: AppStateView, pid: u32, opened: bool, status: i32)
    ensures
        ({
            let (end, run) = suspend_run(s, pid, SuspendPhase::Start, opened, status);
            &&& !opened ==> end == s && run == seq![
                SuspendAction::Open,
                SuspendAction::Return(Err(SuspendError::AccessDenied(pid))),
            ]
            &&& opened && status < 0 ==> end == s && run == seq![
                SuspendAction::Open,
                SuspendAction::Suspend,
                SuspendAction::Close,
                SuspendAction::Return(Err(SuspendError::SuspendFailed(pid, status))),
            ]
            &&& opened && status >= 0 ==> {
                &&& end.suspended_set == s.suspended_set.insert(pid)
                &&& s.process_map.contains_key(pid) ==> end.process_map[pid].is_suspended
                &&& run == seq![
                    SuspendAction::Open,
                    SuspendAction::Suspend,
                    SuspendAction::Close,
                    SuspendAction::SaveSet,
                    SuspendAction::Return(Ok(())),
                ]
            }
        }),
{
    reveal_with_fuel(suspend_run, 6);
    let (end, run) = suspend_run(s, pid, SuspendPhase::Start, opened, status);
    if !opened {
        assert(run =~= seq![
            SuspendAction::Open,
            SuspendAction::Return(Err(SuspendError::AccessDenied(pid))),
        ]);
    } else if status < 0 {
        assert(run =~= seq![
            SuspendAction::Open,
            SuspendAction::Suspend,
            SuspendAction::Close,
            SuspendAction::Return(Err(SuspendError::SuspendFailed(pid, status))),
        ]);
    } else {
        assert(run =~= seq![
            SuspendAction::Open,
            SuspendAction::Suspend,
            SuspendAction::Close,
            SuspendAction::SaveSet,
            SuspendAction::Return(Ok(())),
        ]);
    }
}

/// What a resumption comes to: a process that is not suspended needs nothing; one
/// that is gone is only taken out of the set; one that cannot be opened, or whose
/// status is below zero, stays suspended and is reported; any other runs again and
/// leaves the set, which is saved.
pub proof fn a_resumption_reports_the_status(s: AppStateView, pid: u32, answers: ResumeAnswers)
    ensures
        ({
            let (end, run) = resume_run(s, pid, ResumePhase::Start, answers);
            let known = s.suspended_set.contains(pid);
            &&& !known ==> end == s && run == seq![ResumeAction::Return(Ok(()))]
            &&& known && !answers.alive ==> end.suspended_set == s.suspended_set.remove(pid) && run
                == seq![ResumeAction::Probe, ResumeAction::SaveSet, ResumeAction::Return(Ok(()))]
            &&& known && answers.alive && !answers.opened ==> end == s && run == seq![
                ResumeAction::Probe,
                ResumeAction::Open,
                ResumeAction::Return(Err(SuspendError::AccessDenied(pid))),
            ]
            &&& known && answers.alive && answers.opened && answers.status < 0 ==> end == s && run
                == seq![
                ResumeAction::Probe,
                ResumeAction::Open,
                ResumeAction::Resume,
                ResumeAction::Close,
                ResumeAction::Return(Err(SuspendError::ResumeFailed(pid, answers.status))),
            ]
            &&& known && answers.alive && answers.opened && answers.status >= 0 ==> {
                &&& end.suspended_set == s.suspended_set.remove(pid)
                &&& s.process_map.contains_key(pid) ==> !end.process_map[pid].is_suspended
                &&& run == seq![
                    ResumeAction::Probe,
                    ResumeAction::Open,
                    ResumeAction::Resume,
                    ResumeAction::Close,
                    ResumeAction::SaveSet,
                    ResumeAction::Return(Ok(())),
                ]
            }
        }),
{
    reveal_with_fuel(resume_run, 7);
    let (end, run) = resume_run(s, pid, ResumePhase::Start, answers);
    if !s.suspended_set.contains(pid) {
        assert(run =~= seq![ResumeAction::Return(Ok(()))]);
    } else if !answers.alive {
        assert(run =~= seq![
            ResumeAction::Probe,
            ResumeAction::SaveSet,
            ResumeAction::Return(Ok(())),
        ]);
    } else if !answers.opened {
        assert(run =~= seq![
            ResumeAction::Probe,
            ResumeAction::Open,
            ResumeAction::Return(Err(SuspendError::AccessDenied(pid))),
        ]);
    } else if answers.status < 0 {
        assert(run =~= seq![
            ResumeAction::Probe,
            ResumeAction::Open,
            ResumeAction::Resume,
            ResumeAction::Close,
            ResumeAction::Return(Err(SuspendError::ResumeFailed(pid, answers.status))),
        ]);
    } else {
        assert(run =~= seq![
            ResumeAction::Probe,
            ResumeAction::Open,
            ResumeAction::Resume,
            ResumeAction::Close,
            ResumeAction::SaveSet,
            ResumeAction::Return(Ok(())),
        ]);
    }
}

/// Resuming twice is the same as resuming once.
pub proof fn resuming_is_idempotent(
    s: AppStateView,
    pid: u32,
    first: ResumeAnswers,
    second: ResumeAnswers,
)
    requires
        s.suspended_set.contains(pid),
        resume_outcome(pid, first) is Ok,
    ensures
        ({
            let end = resume_run(s, pid, ResumePhase::Start, first).0;
            &&& resume_run(end, pid, ResumePhase::Start, second).0 == end
            &&& resume_run(end, pid, ResumePhase::Start, second).1 == seq![
                ResumeAction::Return(Ok(())),
            ]
        }),
{
    a_resumption_ends_and_is_recorded(s, pid, first);
    a_resumption_ends_and_is_recorded(resumed_state(s, pid), pid, second);
}

// ---------------------------------------------------------------------------
// Resuming everything
// ---------------------------------------------------------------------------

/// The processes to resume so that none is left suspended, in no particular
/// order.
pub fn resume_all_suspended(state: &AppState) -> (r: Vec<u32>)
    ensures
        r@.no_duplicates(),
        forall|pid: u32| #[trigger] r@.contains(pid) <==> state@.suspended_set.contains(pid),
{
    members(&state.suspended_set)
}

/// The state once each of `pids` was to be resumed, one after the other, where the
/// operating system answers for each process in its own way.
pub open spec fn resume_each_run(
    s: AppStateView,
    pids: Seq<u32>,
    answers: spec_fn(u32) -> ResumeAnswers,
) -> AppStateView
    decreases pids.len(),
{
    if pids.len() == 0 {
        s
    } else {
        let pid = pids.last();
        resume_run(
            resume_each_run(s, pids.drop_last(), answers),
            pid,
            ResumePhase::Start,
            answers(pid),
        ).0
    }
}

/// A process cannot be resumed.
pub open spec fn resume_fails(answers: spec_fn(u32) -> ResumeAnswers, pid: u32) -> bool {
    resume_outcome(pid, answers(pid)) is Err
}

proof fn lemma_resume_each(
    s: AppStateView,
    pids: Seq<u32>,
    answers: spec_fn(u32) -> ResumeAnswers,
)
    ensures
        s.consistent() ==> resume_each_run(s, pids, answers).consistent(),
        forall|pid: u32| #[trigger]
            resume_each_run(s, pids, answers).suspended_set.contains(pid)
                <==> s.suspended_set.contains(pid) && (!pids.contains(pid) || resume_fails(
                answers,
                pid,
            )),
        resume_each_run(s, pids, answers).process_map.dom() == s.process_map.dom(),
    decreases pids.len(),
{
    if pids.len() > 0 {
        let front = pids.drop_last();
        let last = pids.last();
        lemma_resume_each(s, front, answers);
        let before = resume_each_run(s, front, answers);
        let after = resume_each_run(s, pids, answers);
        if s.consistent() {
            suspension_keeps_the_state_consistent(before, last);
        }
        a_resumption_ends_and_is_recorded(before, last, answers(last));
        assert(after == before || after == resumed_state(before, last));
        assert(after.process_map.dom() =~= s.process_map.dom());
        assert forall|pid: u32| #[trigger] pids.contains(pid) <==> (front.contains(pid) || pid
            == last) by {
            if pids.contains(pid) {
                let i = choose|i: int| 0 <= i < pids.len() && pids[i] == pid;
                if i < front.len() {
                    assert(front[i] == pid);
                }
            }
            if front.contains(pid) {
                let i = choose|i: int| 0 <= i < front.len() && front[i] == pid;
                assert(pids[i] == pid);
            }
            assert(pids[pids.len() - 1] == last);
        }
        assert forall|pid: u32| #[trigger] after.suspended_set.contains(pid)
            <==> s.suspended_set.contains(pid) && (!pids.contains(pid) || resume_fails(
            answers,
            pid,
        )) by {
            assert(before.suspended_set.contains(pid) <==> s.suspended_set.contains(pid) && (
            !front.contains(pid) || resume_fails(answers, pid)));
        }
    }
}

/// Resuming whatever is suspended goes on after failures: what stays suspended
/// are just the processes that could not be resumed. The flags stay in step.
pub proof fn resuming_all_leaves_just_the_failures(
    s: AppStateView,
    plan: Seq<u32>,
    answers: spec_fn(u32) -> ResumeAnswers,
)
    requires
        forall|pid: u32| #[trigger] plan.contains(pid) <==> s.suspended_set.contains(pid),
    ensures
        ({
            let end = resume_each_run(s, plan, answers);
            &&& s.consistent() ==> end.consistent()
            &&& end.suspended_set == s.suspended_set.filter(|pid: u32| resume_fails(answers, pid))
            &&& end.process_map.dom() == s.process_map.dom()
        }),
{
    lemma_resume_each(s, plan, answers);
    let end = resume_each_run(s, plan, answers);
    let left = s.suspended_set.filter(|pid: u32| resume_fails(answers, pid));
    assert forall|pid: u32| #[trigger] end.suspended_set.contains(pid) <==> left.contains(pid) by {
        assert(plan.contains(pid) <==> s.suspended_set.contains(pid));
    }
    assert(end.suspended_set =~= left);
}

/// Resuming whatever is suspended leaves just those suspended that still exist and
/// could not be opened, or refused to be resumed.
pub proof fn resuming_all_goes_on_after_failures(
    s: AppStateView,
    plan: Seq<u32>,
    answers: spec_fn(u32) -> ResumeAnswers,
    pid: u32,
)
    requires
        forall|p: u32| #[trigger] plan.contains(p) <==> s.suspended_set.contains(p),
    ensures
        resume_each_run(s, plan, answers).suspended_set.contains(pid) <==> s.suspended_set.contains(
            pid,
        ) && answers(pid).alive && (!answers(pid).opened || answers(pid).status < 0),
{
    resuming_all_leaves_just_the_failures(s, plan, answers);
}

/// Once every process of the plan was resumed, none is suspended and no process
/// is flagged.
pub proof fn resuming_the_plan_leaves_none_suspended(
    s: AppStateView,
    plan: Seq<u32>,
    answers: spec_fn(u32) -> ResumeAnswers,
)
    requires
        s.consistent(),
        forall|pid: u32| #[trigger] plan.contains(pid) <==> s.suspended_set.contains(pid),
        forall|pid: u32| s.suspended_set.contains(pid) ==> !#[trigger] resume_fails(answers, pid),
    ensures
        ({
            let end = resume_each_run(s, plan, answers);
            &&& end.suspended_set == Set::<u32>::empty()
            &&& end.process_map.dom() == s.process_map.dom()
            &&& forall|pid: u32| #[trigger]
                end.process_map.contains_key(pid) ==> !end.process_map[pid].is_suspended
        }),
{
    resuming_all_leaves_just_the_failures(s, plan, answers);
    let end = resume_each_run(s, plan, answers);
    assert forall|pid: u32| !#[trigger] end.suspended_set.contains(pid) by {
        if s.suspended_set.contains(pid) {
            assert(!resume_fails(answers, pid));
        }
    }
    assert(end.suspended_set =~= Set::<u32>::empty());
}

/// Whether the process whose window came to the foreground is to be resumed.
pub fn resumes_on_focus(state: &AppState, pid: u32) -> (r: bool)
    ensures
        r == (pid != 0 && state@.suspended_set.contains(pid)),
{
    pid != 0 && state.suspended_set.contains(&pid)
}

// ---------------------------------------------------------------------------
// Remembering the set
// ---------------------------------------------------------------------------

/// A list of process ids as indented JSON.
pub open spec fn pids_json(list: Seq<u32>) -> Seq<char> {
    if list.len() == 0 {
        "[]"@
    } else {
        "[\n  "@ + joined(Seq::new(list.len(), |i: int| decimal(list[i] as nat)), ",\n  "@)
            + "\n]"@
    }
}

/// The process ids that a JSON text holds, where it is a list of them.
pub uninterp spec fn parsed_pids(text: Seq<char>) -> Option<Seq<u32>>;

/// The ids of an optional list.
pub open spec fn opt_pids(list: Option<Vec<u32>>) -> Option<Seq<u32>> {
    match list {
        Some(list) => Some(list@),
        None => None,
    }
}

/// `serde_json::to_string_pretty` on a list of numbers. Claims that it succeeds
/// and writes each number in decimal on a line of its own, indented by two
/// spaces, and that an empty list has no lines.
#[verifier::external_body]
fn write_pids(list: &Vec<u32>) -> (r: Result<String, String>)
    ensures
        r is Ok,
        r->Ok_0@ == pids_json(list@),
{
    serde_json::to_string_pretty(list).map_err(|e| e.to_string())
}

/// `serde_json::from_str` into a list of 32-bit numbers. Claims that the result
/// depends on the text alone, and that what `to_string_pretty` made of a list is
/// read back as that list.
#[verifier::external_body]
fn read_pids(text: &str) -> (r: Option<Vec<u32>>)
    ensures
        opt_pids(r) == parsed_pids(text@),
        forall|list: Seq<u32>| text@ == #[trigger] pids_json(list) ==> opt_pids(r) == Some(list),
{
    serde_json::from_str::<Vec<u32>>(text).ok()
}

/// `text` is the file for a set: the members once each, in some order.
pub open spec fn is_pids_file(text: Seq<char>, pids: Set<u32>) -> bool {
    exists|list: Seq<u32>|
        list.to_set() == pids && list.no_duplicates() && text == #[trigger] pids_json(list)
}

/// The text to write to disk for a set of suspended processes.
pub fn save_suspended_set(pids: &HashSet<u32>) -> (r: Result<String, String>)
    ensures
        r matches Ok(text) && is_pids_file(text@, pids@),
        r matches Ok(text) && exists|list: Seq<u32>|
            list.no_duplicates() && (forall|pid: u32| #[trigger]
                list.contains(pid) <==> pids@.contains(pid)) && text@ == #[trigger] pids_json(list),
{
    let list: Vec<u32> = members(pids);
    assert(list@.to_set() =~= pids@) by {
        assert forall|pid: u32| list@.to_set().contains(pid) <==> pids@.contains(pid) by {
            assert(list@.to_set().contains(pid) <==> list@.contains(pid));
        }
    }
    write_pids(&list)
}

/// What came of looking for the file.
#[derive(Debug)]
pub enum PidsReading {
    /// The place where it lives could not be told.
    NoLocation,
    /// There is no such file.
    Missing,
    /// The file is there and could not be read.
    Unreadable,
    /// The file holds this text.
    Text(String),
}

/// The set that a file holds; empty where it is corrupt.
pub open spec fn pids_in(text: Seq<char>) -> Set<u32> {
    match parsed_pids(text) {
        Some(list) => list.to_set(),
        None => Set::empty(),
    }
}

fn set_of(list: &Vec<u32>) -> (r: HashSet<u32>)
    ensures
        r@ == list@.to_set(),
{
    let mut r: HashSet<u32> = HashSet::new();
    let mut i: usize = 0;
    assert(r@ =~= list@.take(0).to_set());
    while i < list.len()
        invariant
            i <= list@.len(),
            r@ == list@.take(i as int).to_set(),
        decreases list@.len() - i,
    {
        r.insert(list[i]);
        assert(list@.take(i + 1) =~= list@.take(i as int).push(list@[i as int]));
        assert(list@.take(i + 1).to_set() =~= list@.take(i as int).to_set().insert(
            list@[i as int],
        )) by {
            broadcast use vstd::seq_lib::group_seq_properties;
        }
        i = i + 1;
    }
    assert(list@.take(i as int) =~= list@);
    r
}

/// The set that parsing a file has given; empty where the file is corrupt.
pub fn parsed_set(parsed: &Option<Vec<u32>>) -> (r: HashSet<u32>)
    ensures
        r@ == (match opt_pids(*parsed) {
            Some(list) => list.to_set(),
            None => Set::empty(),
        }),
{
    match parsed {
        Some(list) => set_of(list),
        None => HashSet::new(),
    }
}

/// The processes that an earlier session left suspended; none where the file is
/// missing, unreadable or corrupt. A file written for a set gives that set back.
pub fn load_suspended_set(reading: &PidsReading) -> (r: HashSet<u32>)
    ensures
        match *reading {
            PidsReading::Text(text) => r@ == pids_in(text@) && forall|pids: Set<u32>| #[trigger]
                is_pids_file(text@, pids) ==> r@ == pids,
            _ => r@ == Set::<u32>::empty(),
        },
{
    match reading {
        PidsReading::Text(text) => {
            let parsed: Option<Vec<u32>> = read_pids(text.as_str());
            let r: HashSet<u32> = parsed_set(&parsed);
            proof {
                assert forall|pids: Set<u32>| #[trigger] is_pids_file(text@, pids) implies r@
                    == pids by {
                    let list = choose|list: Seq<u32>|
                        list.to_set() == pids && list.no_duplicates() && text@ == #[trigger] pids_json(
                            list,
                        );
                    assert(opt_pids(parsed) == Some(list));
                }
            }
            r
        },
        _ => HashSet::new(),
    }
}

/// An error names the process, and the status where there is one.
pub proof fn suspend_errors_name_the_process(pid: u32, status: i32)
    ensures
        SuspendError::AccessDenied(pid).text() == "Access denied for PID "@ + decimal(pid as nat),
        SuspendError::SuspendFailed(pid, status).text() == "Suspend failed for PID "@ + decimal(
            pid as nat,
        ) + ": NTSTATUS "@ + status_code(status),
        SuspendError::ResumeFailed(pid, status).text() == "Resume failed for PID "@ + decimal(
            pid as nat,
        ) + ": NTSTATUS "@ + status_code(status),
{
}

/// The file for a set of processes lists their ids in decimal, one to a line.
pub proof fn the_file_lists_the_ids(list: Seq<u32>)
    ensures
        list.len() == 0 ==> pids_json(list) == "[]"@,
        list.len() > 0 ==> pids_json(list) == "[\n  "@ + joined(
            Seq::new(list.len(), |i: int| decimal(list[i] as nat)),
            ",\n  "@,
        ) + "\n]"@,
{
}

/// Whenever the set is to be saved it is up to date: it holds a process that was just
/// suspended, and no longer one that was just resumed or is gone.
pub proof fn what_is_saved_is_up_to_date(
    s: AppStateView,
    pid: u32,
    suspending: SuspendPhase,
    suspended: SuspendReply,
    resuming: ResumePhase,
    resumed: ResumeReply,
)
    requires
        suspend_reply_fits(suspending, suspended),
        resume_reply_fits(resuming, resumed),
    ensures
        suspend_step(pid, suspending, suspended).1 == SuspendAction::SaveSet ==> suspend_effect(
            s,
            pid,
            suspending,
        ).suspended_set == s.suspended_set.insert(pid),
        suspend_step(pid, suspending, suspended).1 != SuspendAction::SaveSet ==> suspend_effect(
            s,
            pid,
            suspending,
        ) == s,
        resume_step(s, pid, resuming, resumed).1 == ResumeAction::SaveSet ==> resume_effect(
            s,
            pid,
            resuming,
            resumed,
        ).suspended_set == s.suspended_set.remove(pid),
        resume_step(s, pid, resuming, resumed).1 != ResumeAction::SaveSet ==> resume_effect(
            s,
            pid,
            resuming,
            resumed,
        ) == s,
{
}

} // verus!
