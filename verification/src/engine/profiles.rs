//! Operational profiles: what each stands for, and what switching involves.

use vstd::prelude::*;

use crate::engine::bloat_scan::{
    a_lookup_gives_the_processes_of_the_service, bloat_names, get_bloat_pids, known_bloat,
    known_bloat_names, lists_bloat,
};
use crate::state::app_state::{
    default_custom_profile, profile_named, AppState, AppStateView, ProcessEntry, Profile,
    ProfileView, TrimTrigger,
};
use crate::state::config::UserConfigView;
use crate::text::{ascii_lower, is_ascii_text, lowered, opt_text, str_texts};

verus! {

broadcast use vstd::std_specs::hash::group_hash_axioms;

// ---------------------------------------------------------------------------
// What a profile stands for
// ---------------------------------------------------------------------------

/// The settings that a profile stands for.
#[derive(Debug, Clone, Copy, PartialEq, Eq, Structural)]
pub struct ProfileConfig {
    /// Minimum idle time (seconds) before a process is eligible for trimming.
    pub idle_threshold_secs: u64,
    /// Whether hard suspend is permitted.
    pub use_hard_suspend: bool,
    /// Whether all bloat services are suspended on activation.
    pub suspend_bloat_on_activate: bool,
    /// Memory pressure percentage that triggers auto-trim.
    pub auto_trim_threshold_pct: u8,
}

/// The settings that a profile stands for.
pub open spec fn resolved(profile: ProfileView) -> ProfileConfig {
    match profile {
        ProfileView::Work => ProfileConfig {
            idle_threshold_secs: 900,
            use_hard_suspend: false,
            suspend_bloat_on_activate: false,
            auto_trim_threshold_pct: 80,
        },
        ProfileView::Gaming => ProfileConfig {
            idle_threshold_secs: 300,
            use_hard_suspend: true,
            suspend_bloat_on_activate: true,
            auto_trim_threshold_pct: 60,
        },
        ProfileView::Focus => ProfileConfig {
            idle_threshold_secs: 600,
            use_hard_suspend: false,
            suspend_bloat_on_activate: false,
            auto_trim_threshold_pct: 75,
        },
        ProfileView::Custom(cp) => ProfileConfig {
            idle_threshold_secs: cp.idle_threshold_secs,
            use_hard_suspend: cp.use_hard_suspend,
            suspend_bloat_on_activate: false,
            auto_trim_threshold_pct: 80,
        },
    }
}

/// Works out the settings that a profile stands for.
pub fn resolve_profile(profile: &Profile) -> (r: ProfileConfig)
    ensures
        r == resolved(profile@),
{
    match profile {
        Profile::Work => ProfileConfig {
            idle_threshold_secs: 900,
            use_hard_suspend: false,
            suspend_bloat_on_activate: false,
            auto_trim_threshold_pct: 80,
        },
        Profile::Gaming => ProfileConfig {
            idle_threshold_secs: 300,
            use_hard_suspend: true,
            suspend_bloat_on_activate: true,
            auto_trim_threshold_pct: 60,
        },
        Profile::Focus => ProfileConfig {
            idle_threshold_secs: 600,
            use_hard_suspend: false,
            suspend_bloat_on_activate: false,
            auto_trim_threshold_pct: 75,
        },
        Profile::Custom(cp) => ProfileConfig {
            idle_threshold_secs: cp.idle_threshold_secs,
            use_hard_suspend: cp.use_hard_suspend,
            suspend_bloat_on_activate: false,
            auto_trim_threshold_pct: 80,
        },
    }
}

/// A profile tells the same of itself as the settings it stands for.
pub proof fn resolving_agrees_with_the_profile(profile: ProfileView)
    ensures
        resolved(profile).idle_threshold_secs == profile.idle_threshold_secs(),
        resolved(profile).use_hard_suspend == profile.hard_suspend_enabled(),
        resolved(profile).suspend_bloat_on_activate == (profile == ProfileView::Gaming),
{
}

/// What each profile stands for.
pub proof fn profiles_stand_for_their_settings(profile: ProfileView)
    ensures
        profile is Work ==> resolved(profile) == (ProfileConfig {
            idle_threshold_secs: 900,
            use_hard_suspend: false,
            suspend_bloat_on_activate: false,
            auto_trim_threshold_pct: 80,
        }),
        profile is Gaming ==> resolved(profile) == (ProfileConfig {
            idle_threshold_secs: 300,
            use_hard_suspend: true,
            suspend_bloat_on_activate: true,
            auto_trim_threshold_pct: 60,
        }),
        profile is Focus ==> resolved(profile) == (ProfileConfig {
            idle_threshold_secs: 600,
            use_hard_suspend: false,
            suspend_bloat_on_activate: false,
            auto_trim_threshold_pct: 75,
        }),
        profile matches ProfileView::Custom(own) ==> resolved(profile) == (ProfileConfig {
            idle_threshold_secs: own.idle_threshold_secs,
            use_hard_suspend: own.use_hard_suspend,
            suspend_bloat_on_activate: false,
            auto_trim_threshold_pct: 80,
        }),
        profile is Work ==> name_of(profile) == "Work"@,
        profile is Gaming ==> name_of(profile) == "Gaming"@,
        profile is Focus ==> name_of(profile) == "Focus"@,
        profile matches ProfileView::Custom(own) ==> name_of(profile) == own.name,
{
}

/// The name of a profile.
pub open spec fn name_of(profile: ProfileView) -> Seq<char> {
    match profile {
        ProfileView::Work => "Work"@,
        ProfileView::Gaming => "Gaming"@,
        ProfileView::Focus => "Focus"@,
        ProfileView::Custom(cp) => cp.name,
    }
}

/// The name of a profile.
pub fn profile_to_name(profile: &Profile) -> (r: String)
    ensures
        r@ == name_of(profile@),
{
    match profile {
        Profile::Work => "Work".to_owned(),
        Profile::Gaming => "Gaming".to_owned(),
        Profile::Focus => "Focus".to_owned(),
        Profile::Custom(cp) => cp.name.clone(),
    }
}

/// A built-in profile, and a user-defined one that was not changed, is found
/// again under its name.
pub proof fn profiles_are_found_by_name(profile: ProfileView)
    requires
        profile matches ProfileView::Custom(cp) ==> cp == default_custom_profile(),
    ensures
        profile_named(name_of(profile)) == profile,
{
    reveal_strlit("Work");
    reveal_strlit("Gaming");
    reveal_strlit("Focus");
    reveal_strlit("Custom");
    reveal_strlit("gaming");
    reveal_strlit("focus");
    reveal_strlit("custom");
    let name = name_of(profile);
    assert(is_ascii_text(name));
    let lower = lowered(name);
    assert(lower == ascii_lower(name));
    match profile {
        ProfileView::Work => {
            assert("gaming"@.len() == 6 && "focus"@.len() == 5 && "custom"@.len() == 6);
            assert(lower.len() == 4);
        },
        ProfileView::Gaming => {
            assert(lower =~= "gaming"@);
        },
        ProfileView::Focus => {
            assert(lower =~= "focus"@);
            assert("gaming"@.len() == 6);
        },
        ProfileView::Custom(_) => {
            assert(lower =~= "custom"@);
            assert("custom"@[0] != "gaming"@[0]);
            assert("focus"@.len() == 5);
        },
    }
}

// ---------------------------------------------------------------------------
// State changes
// ---------------------------------------------------------------------------

/// The settings on entering a profile: Focus puts the user's idle threshold and
/// hard-suspend permission aside, unless some are put aside already, and sets its
/// own.
pub open spec fn config_on_entry(c: UserConfigView, profile: ProfileView) -> UserConfigView {
    let named = UserConfigView { active_profile: name_of(profile), ..c };
    if profile == ProfileView::Focus {
        UserConfigView {
            pre_focus_idle_threshold: if c.pre_focus_idle_threshold is None {
                Some(c.idle_threshold_secs)
            } else {
                c.pre_focus_idle_threshold
            },
            pre_focus_hard_suspend: if c.pre_focus_idle_threshold is None {
                Some(c.hard_suspend_enabled)
            } else {
                c.pre_focus_hard_suspend
            },
            idle_threshold_secs: 600,
            hard_suspend_enabled: false,
            ..named
        }
    } else {
        named
    }
}

/// The state on entering a profile.
pub open spec fn entered(s: AppStateView, profile: ProfileView) -> AppStateView {
    AppStateView { active_profile: profile, config: config_on_entry(s.config, profile), ..s }
}

/// The settings on leaving Focus: what was put aside is put back.
pub open spec fn config_on_leaving_focus(c: UserConfigView) -> UserConfigView {
    UserConfigView {
        idle_threshold_secs: match c.pre_focus_idle_threshold {
            Some(secs) => secs,
            None => c.idle_threshold_secs,
        },
        hard_suspend_enabled: match c.pre_focus_hard_suspend {
            Some(allowed) => allowed,
            None => c.hard_suspend_enabled,
        },
        pre_focus_idle_threshold: None,
        pre_focus_hard_suspend: None,
        ..c
    }
}

/// The state on leaving Focus: no application is spared any longer.
pub open spec fn left_focus(s: AppStateView) -> AppStateView {
    AppStateView { session_excluded: None, config: config_on_leaving_focus(s.config), ..s }
}

fn enter(state: &mut AppState, profile: &Profile)
    ensures
        final(state)@ == entered(old(state)@, profile@),
{
    if profile.is_focus() {
        if state.config.pre_focus_idle_threshold.is_none() {
            state.config.pre_focus_idle_threshold = Some(state.config.idle_threshold_secs);
            state.config.pre_focus_hard_suspend = Some(state.config.hard_suspend_enabled);
        }
        state.config.idle_threshold_secs = 600;
        state.config.hard_suspend_enabled = false;
    }
    state.active_profile = profile.clone();
    state.config.active_profile = profile_to_name(profile);
}

/// Leaves Focus: spares no application any longer and puts back what was put aside.
pub(crate) fn leave_focus(state: &mut AppState)
    ensures
        final(state)@ == left_focus(old(state)@),
{
    state.session_excluded = None;
    if let Some(secs) = state.config.pre_focus_idle_threshold {
        state.config.idle_threshold_secs = secs;
    }
    state.config.pre_focus_idle_threshold = None;
    if let Some(allowed) = state.config.pre_focus_hard_suspend {
        state.config.hard_suspend_enabled = allowed;
    }
    state.config.pre_focus_hard_suspend = None;
}

/// The settings once Focus was entered `n` times.
pub open spec fn focus_entered(c: UserConfigView, n: nat) -> UserConfigView
    decreases n,
{
    if n == 0 {
        c
    } else {
        config_on_entry(focus_entered(c, (n - 1) as nat), ProfileView::Focus)
    }
}

proof fn lemma_focus_is_entered_once(c: UserConfigView, n: nat)
    requires
        n > 0,
    ensures
        focus_entered(c, n) == config_on_entry(c, ProfileView::Focus),
    decreases n,
{
    if n > 1 {
        lemma_focus_is_entered_once(c, (n - 1) as nat);
    } else {
        assert(focus_entered(c, 0) == c);
    }
}

/// Entering Focus, however often, and leaving it for another profile gives the
/// user's settings back, but for the name of the profile. Where some were put
/// aside already, by a session that never left Focus, those are given back.
pub proof fn leaving_focus_restores_the_settings(c: UserConfigView, n: nat, profile: ProfileView)
    requires
        n > 0,
        c.pre_focus_idle_threshold is Some <==> c.pre_focus_hard_suspend is Some,
        profile != ProfileView::Focus,
    ensures
        ({
            let inside = focus_entered(c, n);
            let after = config_on_leaving_focus(config_on_entry(inside, profile));
            let restored = config_on_leaving_focus(c);
            &&& inside.idle_threshold_secs == 600
            &&& !inside.hard_suspend_enabled
            &&& after == (UserConfigView { active_profile: name_of(profile), ..restored })
            &&& c.pre_focus_idle_threshold is None ==> restored == c
        }),
{
    lemma_focus_is_entered_once(c, n);
}

/// The name of the process that owns the foreground window, where it is known.
pub open spec fn foreground_name(s: AppStateView, pid: Option<u32>) -> Option<Seq<char>> {
    match pid {
        Some(pid) => if pid != 0 && s.process_map.contains_key(pid) {
            Some(s.process_map[pid].name@)
        } else {
            None
        },
        None => None,
    }
}

/// Looks up the name of the process that owns the foreground window. There may
/// be no such window, and its process may be unknown.
pub fn get_foreground_process_name(state: &AppState, pid: Option<u32>) -> (r: Option<String>)
    ensures
        opt_text(r) == foreground_name(state@, pid),
{
    match pid {
        Some(pid) => {
            if pid == 0 {
                return None;
            }
            match state.process_map.get(&pid) {
                Some(e) => Some(e.name.clone()),
                None => None,
            }
        },
        None => None,
    }
}

// ---------------------------------------------------------------------------
// Switching
// ---------------------------------------------------------------------------

/// How far a switch has come.
#[derive(Debug, Clone, Copy, PartialEq, Eq, Structural)]
pub enum SwitchPhase {
    Start,
    CheckingElevation,
    Saving,
    FindingForeground,
    TrimmingForFocus,
    SavingRestored,
    TrimmingForGaming,
    SuspendingBloat,
    ResumingAll,
    Returned,
}

/// What to do next.
#[derive(Debug)]
pub enum SwitchAction {
    /// Find out whether the application has administrator privileges.
    CheckElevation,
    /// Write the settings to disk.
    SaveConfig,
    /// Find out which process owns the foreground window.
    FindForeground,
    /// Trim the processes that were idle for so many seconds.
    SoftTrim(u64, TrimTrigger),
    /// Hard-suspend all bloat services.
    SuspendAllBloat,
    /// Resume all suspended processes.
    ResumeAll,
    /// Done.
    Return(Result<(), String>),
}

/// What to do next, as plain mathematical values.
#[verifier::ext_equal]
pub enum SwitchActionView {
    CheckElevation,
    SaveConfig,
    FindForeground,
    SoftTrim(u64, TrimTrigger),
    SuspendAllBloat,
    ResumeAll,
    Return(Result<(), Seq<char>>),
}

impl View for SwitchAction {
    type V = SwitchActionView;

    open spec fn view(&self) -> SwitchActionView {
        match self {
            SwitchAction::CheckElevation => SwitchActionView::CheckElevation,
            SwitchAction::SaveConfig => SwitchActionView::SaveConfig,
            SwitchAction::FindForeground => SwitchActionView::FindForeground,
            SwitchAction::SoftTrim(secs, trigger) => SwitchActionView::SoftTrim(*secs, *trigger),
            SwitchAction::SuspendAllBloat => SwitchActionView::SuspendAllBloat,
            SwitchAction::ResumeAll => SwitchActionView::ResumeAll,
            SwitchAction::Return(Ok(_)) => SwitchActionView::Return(Ok(())),
            SwitchAction::Return(Err(e)) => SwitchActionView::Return(Err(e@)),
        }
    }
}

/// What came of the last action.
#[derive(Debug, Clone, Copy, PartialEq, Eq)]
pub enum SwitchReply {
    /// It was carried out, or nothing was done yet.
    Done,
    /// Whether the application has administrator privileges.
    Elevated(bool),
    /// The process that owns the foreground window.
    Foreground(Option<u32>),
}

/// The reply answers what the phase asked for.
pub open spec fn switch_reply_fits(phase: SwitchPhase, reply: SwitchReply) -> bool {
    match phase {
        SwitchPhase::CheckingElevation => reply is Elevated,
        SwitchPhase::FindingForeground => reply is Foreground,
        SwitchPhase::Returned => false,
        _ => reply is Done,
    }
}

/// A switch from one profile to another that is under way.
pub struct ProfileSwitch {
    pub previous: Profile,
    pub target: Profile,
    pub phase: SwitchPhase,
}

/// Why Gaming mode was refused.
pub open spec fn gaming_refusal() -> Seq<char> {
    "Gaming Mode requires administrator privileges (hard suspend is always enabled)"@
}

/// What follows once suspended processes were taken care of.
pub open spec fn finish() -> (SwitchPhase, SwitchActionView) {
    (SwitchPhase::Returned, SwitchActionView::Return(Ok(())))
}

/// What follows once Gaming mode was entered, or not.
pub open spec fn after_gaming(previous: ProfileView, target: ProfileView) -> (
    SwitchPhase,
    SwitchActionView,
) {
    if previous == ProfileView::Gaming && target != ProfileView::Gaming {
        (SwitchPhase::ResumingAll, SwitchActionView::ResumeAll)
    } else {
        finish()
    }
}

/// What follows once Focus was left, or not.
pub open spec fn after_focus_exit(previous: ProfileView, target: ProfileView) -> (
    SwitchPhase,
    SwitchActionView,
) {
    if target == ProfileView::Gaming {
        (SwitchPhase::TrimmingForGaming, SwitchActionView::SoftTrim(300, TrimTrigger::GamingMode))
    } else {
        after_gaming(previous, target)
    }
}

/// What follows once Focus was entered, or not.
pub open spec fn after_focus_entry(previous: ProfileView, target: ProfileView) -> (
    SwitchPhase,
    SwitchActionView,
) {
    if previous == ProfileView::Focus && target != ProfileView::Focus {
        (SwitchPhase::SavingRestored, SwitchActionView::SaveConfig)
    } else {
        after_focus_exit(previous, target)
    }
}

/// What the machine makes of a reply: the next phase and the next action.
pub open spec fn switch_step(
    previous: ProfileView,
    target: ProfileView,
    phase: SwitchPhase,
    reply: SwitchReply,
) -> (SwitchPhase, SwitchActionView) {
    match phase {
        SwitchPhase::Start => if target == ProfileView::Gaming {
            (SwitchPhase::CheckingElevation, SwitchActionView::CheckElevation)
        } else {
            (SwitchPhase::Saving, SwitchActionView::SaveConfig)
        },
        SwitchPhase::CheckingElevation => if reply == SwitchReply::Elevated(true) {
            (SwitchPhase::Saving, SwitchActionView::SaveConfig)
        } else {
            (SwitchPhase::Returned, SwitchActionView::Return(Err(gaming_refusal())))
        },
        SwitchPhase::Saving => if target == ProfileView::Focus {
            (SwitchPhase::FindingForeground, SwitchActionView::FindForeground)
        } else {
            after_focus_entry(previous, target)
        },
        SwitchPhase::FindingForeground => (
            SwitchPhase::TrimmingForFocus,
            SwitchActionView::SoftTrim(600, TrimTrigger::Manual),
        ),
        SwitchPhase::TrimmingForFocus => after_focus_entry(previous, target),
        SwitchPhase::SavingRestored => after_focus_exit(previous, target),
        SwitchPhase::TrimmingForGaming => (
            SwitchPhase::SuspendingBloat,
            SwitchActionView::SuspendAllBloat,
        ),
        SwitchPhase::SuspendingBloat => after_gaming(previous, target),
        SwitchPhase::ResumingAll => finish(),
        SwitchPhase::Returned => finish(),
    }
}

/// The state behind a step.
pub open spec fn switch_effect(
    s: AppStateView,
    previous: ProfileView,
    target: ProfileView,
    phase: SwitchPhase,
    reply: SwitchReply,
) -> AppStateView {
    let next = switch_step(previous, target, phase, reply).0;
    if next == SwitchPhase::Saving {
        entered(s, target)
    } else if next == SwitchPhase::SavingRestored {
        left_focus(s)
    } else if next == SwitchPhase::TrimmingForFocus {
        AppStateView {
            session_excluded: match reply {
                SwitchReply::Foreground(pid) => foreground_name(s, pid),
                _ => None,
            },
            ..s
        }
    } else {
        s
    }
}

impl ProfileSwitch {
    /// The switch from the active profile to another one.
    pub fn new(state: &AppState, target: Profile) -> (r: Self)
        ensures
            r.previous@ == state@.active_profile,
            r.target@ == target@,
            r.phase == SwitchPhase::Start,
    {
        ProfileSwitch { previous: state.active_profile.clone(), target, phase: SwitchPhase::Start }
    }

    fn step_after_gaming(&mut self) -> (r: SwitchAction)
        ensures
            (final(self).phase, r@) == after_gaming(old(self).previous@, old(self).target@),
            final(self).previous == old(self).previous,
            final(self).target == old(self).target,
    {
        if self.previous.is_gaming() && !self.target.is_gaming() {
            self.phase = SwitchPhase::ResumingAll;
            SwitchAction::ResumeAll
        } else {
            self.phase = SwitchPhase::Returned;
            SwitchAction::Return(Ok(()))
        }
    }

    fn step_after_focus_exit(&mut self) -> (r: SwitchAction)
        ensures
            (final(self).phase, r@) == after_focus_exit(old(self).previous@, old(self).target@),
            final(self).previous == old(self).previous,
            final(self).target == old(self).target,
    {
        if self.target.is_gaming() {
            self.phase = SwitchPhase::TrimmingForGaming;
            SwitchAction::SoftTrim(300, TrimTrigger::GamingMode)
        } else {
            self.step_after_gaming()
        }
    }

    fn step_after_focus_entry(&mut self, state: &mut AppState) -> (r: SwitchAction)
        ensures
            (final(self).phase, r@) == after_focus_entry(old(self).previous@, old(self).target@),
            final(self).previous == old(self).previous,
            final(self).target == old(self).target,
            final(state)@ == (if final(self).phase == SwitchPhase::SavingRestored {
                left_focus(old(state)@)
            } else {
                old(state)@
            }),
    {
        if self.previous.is_focus() && !self.target.is_focus() {
            leave_focus(state);
            self.phase = SwitchPhase::SavingRestored;
            SwitchAction::SaveConfig
        } else {
            self.step_after_focus_exit()
        }
    }
}

/// One step of switching to another profile: takes what came of the last
/// action and says what to do next.
pub fn activate_profile(switch: &mut ProfileSwitch, reply: SwitchReply, state: &mut AppState) -> (r:
    SwitchAction)
    requires
        switch_reply_fits(old(switch).phase, reply),
    ensures
        (final(switch).phase, r@) == switch_step(
            old(switch).previous@,
            old(switch).target@,
            old(switch).phase,
            reply,
        ),
        final(switch).previous == old(switch).previous,
        final(switch).target == old(switch).target,
        final(state)@ == switch_effect(
            old(state)@,
            old(switch).previous@,
            old(switch).target@,
            old(switch).phase,
            reply,
        ),
        old(state)@.consistent() ==> final(state)@.consistent(),
{
    match switch.phase {
        SwitchPhase::Start => {
            if switch.target.is_gaming() {
                switch.phase = SwitchPhase::CheckingElevation;
                SwitchAction::CheckElevation
            } else {
                enter(state, &switch.target);
                switch.phase = SwitchPhase::Saving;
                SwitchAction::SaveConfig
            }
        },
        SwitchPhase::CheckingElevation => match reply {
            SwitchReply::Elevated(true) => {
                enter(state, &switch.target);
                switch.phase = SwitchPhase::Saving;
                SwitchAction::SaveConfig
            },
            _ => {
                switch.phase = SwitchPhase::Returned;
                SwitchAction::Return(
                    Err(
                        "Gaming Mode requires administrator privileges (hard suspend is always enabled)".to_owned(),
                    ),
                )
            },
        },
        SwitchPhase::Saving => {
            if switch.target.is_focus() {
                switch.phase = SwitchPhase::FindingForeground;
                SwitchAction::FindForeground
            } else {
                switch.step_after_focus_entry(state)
            }
        },
        SwitchPhase::FindingForeground => {
            let pid: Option<u32> = match reply {
                SwitchReply::Foreground(pid) => pid,
                _ => None,
            };
            let name: Option<String> = get_foreground_process_name(state, pid);
            state.session_excluded = name;
            switch.phase = SwitchPhase::TrimmingForFocus;
            SwitchAction::SoftTrim(600, TrimTrigger::Manual)
        },
        SwitchPhase::TrimmingForFocus => switch.step_after_focus_entry(state),
        SwitchPhase::SavingRestored => switch.step_after_focus_exit(),
        SwitchPhase::TrimmingForGaming => {
            switch.phase = SwitchPhase::SuspendingBloat;
            SwitchAction::SuspendAllBloat
        },
        SwitchPhase::SuspendingBloat => switch.step_after_gaming(),
        _ => {
            switch.phase = SwitchPhase::Returned;
            SwitchAction::Return(Ok(()))
        },
    }
}

/// The reply to the action that led into `phase`.
pub open spec fn switch_answer(
    phase: SwitchPhase,
    elevated: bool,
    foreground: Option<u32>,
) -> SwitchReply {
    match phase {
        SwitchPhase::CheckingElevation => SwitchReply::Elevated(elevated),
        SwitchPhase::FindingForeground => SwitchReply::Foreground(foreground),
        _ => SwitchReply::Done,
    }
}

/// How many actions are left at most.
pub open spec fn switch_steps_left(phase: SwitchPhase) -> nat {
    match phase {
        SwitchPhase::Start => 9,
        SwitchPhase::CheckingElevation => 8,
        SwitchPhase::Saving => 7,
        SwitchPhase::FindingForeground => 6,
        SwitchPhase::TrimmingForFocus => 5,
        SwitchPhase::SavingRestored => 4,
        SwitchPhase::TrimmingForGaming => 3,
        SwitchPhase::SuspendingBloat => 2,
        SwitchPhase::ResumingAll => 1,
        SwitchPhase::Returned => 0,
    }
}

/// All actions of a switch from `phase` on, and the state behind them, as far as
/// the machine itself changes it.
pub open spec fn switch_run(
    s: AppStateView,
    previous: ProfileView,
    target: ProfileView,
    phase: SwitchPhase,
    elevated: bool,
    foreground: Option<u32>,
) -> (AppStateView, Seq<SwitchActionView>)
    decreases switch_steps_left(phase),
{
    if phase is Returned {
        (s, Seq::empty())
    } else {
        let reply = switch_answer(phase, elevated, foreground);
        let (next, action) = switch_step(previous, target, phase, reply);
        let (end, rest) = switch_run(
            switch_effect(s, previous, target, phase, reply),
            previous,
            target,
            next,
            elevated,
            foreground,
        );
        (end, seq![action] + rest)
    }
}

/// What is left to do once Gaming mode was entered, or not: leaving it resumes
/// whatever is suspended.
pub open spec fn actions_after_gaming(previous: ProfileView, target: ProfileView) -> Seq<
    SwitchActionView,
> {
    if previous == ProfileView::Gaming && target != ProfileView::Gaming {
        seq![SwitchActionView::ResumeAll, SwitchActionView::Return(Ok(()))]
    } else {
        seq![SwitchActionView::Return(Ok(()))]
    }
}

/// What is left to do once Focus was left, or not: entering Gaming trims and
/// suspends the bloat services.
pub open spec fn actions_after_focus_exit(previous: ProfileView, target: ProfileView) -> Seq<
    SwitchActionView,
> {
    let rest = actions_after_gaming(previous, target);
    if target == ProfileView::Gaming {
        seq![
            SwitchActionView::SoftTrim(300, TrimTrigger::GamingMode),
            SwitchActionView::SuspendAllBloat,
        ] + rest
    } else {
        rest
    }
}

/// What is left to do once Focus was entered, or not: leaving it saves the
/// settings that were put back.
pub open spec fn actions_after_focus_entry(previous: ProfileView, target: ProfileView) -> Seq<
    SwitchActionView,
> {
    let rest = actions_after_focus_exit(previous, target);
    if previous == ProfileView::Focus && target != ProfileView::Focus {
        seq![SwitchActionView::SaveConfig] + rest
    } else {
        rest
    }
}

/// All that a switch does: entering Gaming asks for privileges first, and
/// entering Focus looks for the foreground application and trims.
pub open spec fn switch_actions(previous: ProfileView, target: ProfileView) -> Seq<
    SwitchActionView,
> {
    let rest = actions_after_focus_entry(previous, target);
    if target == ProfileView::Gaming {
        seq![SwitchActionView::CheckElevation, SwitchActionView::SaveConfig] + rest
    } else if target == ProfileView::Focus {
        seq![
            SwitchActionView::SaveConfig,
            SwitchActionView::FindForeground,
            SwitchActionView::SoftTrim(600, TrimTrigger::Manual),
        ] + rest
    } else {
        seq![SwitchActionView::SaveConfig] + rest
    }
}

proof fn lemma_after_gaming(
    s: AppStateView,
    previous: ProfileView,
    target: ProfileView,
    elevated: bool,
    foreground: Option<u32>,
)
    ensures
        ({
            let (next, action) = after_gaming(previous, target);
            let (end, rest) = switch_run(s, previous, target, next, elevated, foreground);
            end == s && seq![action] + rest == actions_after_gaming(previous, target)
        }),
{
    reveal_with_fuel(switch_run, 3);
    let (next, action) = after_gaming(previous, target);
    let (end, rest) = switch_run(s, previous, target, next, elevated, foreground);
    assert(seq![action] + rest =~= actions_after_gaming(previous, target));
}

proof fn lemma_after_focus_exit(
    s: AppStateView,
    previous: ProfileView,
    target: ProfileView,
    elevated: bool,
    foreground: Option<u32>,
)
    ensures
        ({
            let (next, action) = after_focus_exit(previous, target);
            let (end, rest) = switch_run(s, previous, target, next, elevated, foreground);
            end == s && seq![action] + rest == actions_after_focus_exit(previous, target)
        }),
{
    lemma_after_gaming(s, previous, target, elevated, foreground);
    if target == ProfileView::Gaming {
        let (next, action) = after_focus_exit(previous, target);
        let (end, rest) = switch_run(s, previous, target, next, elevated, foreground);
        let (end2, rest2) = switch_run(
            s,
            previous,
            target,
            SwitchPhase::SuspendingBloat,
            elevated,
            foreground,
        );
        assert(rest == seq![SwitchActionView::SuspendAllBloat] + rest2);
        assert(rest2 == actions_after_gaming(previous, target));
        assert(seq![action] + rest =~= actions_after_focus_exit(previous, target));
    }
}

proof fn lemma_after_focus_entry(
    s: AppStateView,
    previous: ProfileView,
    target: ProfileView,
    elevated: bool,
    foreground: Option<u32>,
)
    ensures
        ({
            let (next, action) = after_focus_entry(previous, target);
            let (end, rest) = switch_run(s, previous, target, next, elevated, foreground);
            end == s && seq![action] + rest == actions_after_focus_entry(previous, target)
        }),
{
    lemma_after_focus_exit(s, previous, target, elevated, foreground);
    if previous == ProfileView::Focus && target != ProfileView::Focus {
        let (next, action) = after_focus_entry(previous, target);
        let (end, rest) = switch_run(s, previous, target, next, elevated, foreground);
        assert(rest == actions_after_focus_exit(previous, target));
        assert(seq![action] + rest =~= actions_after_focus_entry(previous, target));
    }
}

/// The state behind a switch that was not refused, as far as the switch itself
/// changes it.
pub open spec fn switched(
    s: AppStateView,
    previous: ProfileView,
    target: ProfileView,
    foreground: Option<u32>,
) -> AppStateView {
    let inside = entered(s, target);
    if target == ProfileView::Focus {
        AppStateView { session_excluded: foreground_name(s, foreground), ..inside }
    } else if previous == ProfileView::Focus {
        left_focus(inside)
    } else {
        inside
    }
}

proof fn lemma_after_saving(
    s: AppStateView,
    previous: ProfileView,
    target: ProfileView,
    elevated: bool,
    foreground: Option<u32>,
)
    ensures
        ({
            let (end, rest) = switch_run(
                entered(s, target),
                previous,
                target,
                SwitchPhase::Saving,
                elevated,
                foreground,
            );
            &&& end == switched(s, previous, target, foreground)
            &&& rest == (if target == ProfileView::Focus {
                seq![
                    SwitchActionView::FindForeground,
                    SwitchActionView::SoftTrim(600, TrimTrigger::Manual),
                ] + actions_after_focus_entry(previous, target)
            } else {
                actions_after_focus_entry(previous, target)
            })
        }),
{
    let inside = entered(s, target);
    let end = switched(s, previous, target, foreground);
    let (_, rest) = switch_run(
        inside,
        previous,
        target,
        SwitchPhase::Saving,
        elevated,
        foreground,
    );
    lemma_after_focus_entry(end, previous, target, elevated, foreground);
    if target == ProfileView::Focus {
        let (_, rest2) = switch_run(
            inside,
            previous,
            target,
            SwitchPhase::FindingForeground,
            elevated,
            foreground,
        );
        let (_, rest3) = switch_run(
            end,
            previous,
            target,
            SwitchPhase::TrimmingForFocus,
            elevated,
            foreground,
        );
        assert(rest == seq![SwitchActionView::FindForeground] + rest2);
        assert(rest2 == seq![SwitchActionView::SoftTrim(600, TrimTrigger::Manual)] + rest3);
        assert(rest3 == actions_after_focus_entry(previous, target));
        assert(rest =~= seq![
            SwitchActionView::FindForeground,
            SwitchActionView::SoftTrim(600, TrimTrigger::Manual),
        ] + rest3);
    }
}

/// Gaming mode is refused without administrator privileges, and nothing changes
/// then. Any other switch carries out all that belongs to it, in order, and ends
/// with the profile active and its name in the settings. Entering Focus spares
/// the foreground application; leaving it spares none and puts the user's settings
/// back.
pub proof fn a_switch_does_what_the_profile_asks(
    s: AppStateView,
    target: ProfileView,
    elevated: bool,
    foreground: Option<u32>,
)
    ensures
        ({
            let previous = s.active_profile;
            let (end, run) = switch_run(
                s,
                previous,
                target,
                SwitchPhase::Start,
                elevated,
                foreground,
            );
            if target == ProfileView::Gaming && !elevated {
                end == s && run == seq![
                    SwitchActionView::CheckElevation,
                    SwitchActionView::Return(Err(gaming_refusal())),
                ]
            } else {
                &&& run == switch_actions(previous, target)
                &&& end == switched(s, previous, target, foreground)
                &&& end.active_profile == target
                &&& end.config.active_profile == name_of(target)
            }
        }),
{
    let previous = s.active_profile;
    let (_, run) = switch_run(s, previous, target, SwitchPhase::Start, elevated, foreground);
    lemma_after_saving(s, previous, target, elevated, foreground);
    if target == ProfileView::Gaming {
        let (_, rest) = switch_run(
            s,
            previous,
            target,
            SwitchPhase::CheckingElevation,
            elevated,
            foreground,
        );
        assert(run == seq![SwitchActionView::CheckElevation] + rest);
        if elevated {
            assert(run =~= switch_actions(previous, target));
        } else {
            reveal_with_fuel(switch_run, 3);
            assert(run =~= seq![
                SwitchActionView::CheckElevation,
                SwitchActionView::Return(Err(gaming_refusal())),
            ]);
        }
    } else {
        assert(run =~= switch_actions(previous, target));
    }
}

/// All that a switch does, in order. Gaming mode asks for privileges, trims what has
/// been idle for five minutes and suspends the bloat services; leaving it resumes
/// whatever is suspended. Focus looks for the foreground application and trims what
/// has been idle for ten minutes; leaving it saves the settings once more.
pub proof fn a_switch_takes_its_steps(
    s: AppStateView,
    target: ProfileView,
    elevated: bool,
    foreground: Option<u32>,
)
    requires
        !(target is Gaming) || elevated,
    ensures
        ({
            let run = switch_run(
                s,
                s.active_profile,
                target,
                SwitchPhase::Start,
                elevated,
                foreground,
            ).1;
            let from_focus = s.active_profile is Focus;
            let from_gaming = s.active_profile is Gaming;
            &&& target is Gaming && from_focus ==> run == seq![
                SwitchActionView::CheckElevation,
                SwitchActionView::SaveConfig,
                SwitchActionView::SaveConfig,
                SwitchActionView::SoftTrim(300, TrimTrigger::GamingMode),
                SwitchActionView::SuspendAllBloat,
                SwitchActionView::Return(Ok(())),
            ]
            &&& target is Gaming && !from_focus ==> run == seq![
                SwitchActionView::CheckElevation,
                SwitchActionView::SaveConfig,
                SwitchActionView::SoftTrim(300, TrimTrigger::GamingMode),
                SwitchActionView::SuspendAllBloat,
                SwitchActionView::Return(Ok(())),
            ]
            &&& target is Focus && from_gaming ==> run == seq![
                SwitchActionView::SaveConfig,
                SwitchActionView::FindForeground,
                SwitchActionView::SoftTrim(600, TrimTrigger::Manual),
                SwitchActionView::ResumeAll,
                SwitchActionView::Return(Ok(())),
            ]
            &&& target is Focus && !from_gaming ==> run == seq![
                SwitchActionView::SaveConfig,
                SwitchActionView::FindForeground,
                SwitchActionView::SoftTrim(600, TrimTrigger::Manual),
                SwitchActionView::Return(Ok(())),
            ]
            &&& (target is Work || target is Custom) && from_focus ==> run == seq![
                SwitchActionView::SaveConfig,
                SwitchActionView::SaveConfig,
                SwitchActionView::Return(Ok(())),
            ]
            &&& (target is Work || target is Custom) && from_gaming ==> run == seq![
                SwitchActionView::SaveConfig,
                SwitchActionView::ResumeAll,
                SwitchActionView::Return(Ok(())),
            ]
            &&& (target is Work || target is Custom) && !from_focus && !from_gaming ==> run == seq![
                SwitchActionView::SaveConfig,
                SwitchActionView::Return(Ok(())),
            ]
        }),
{
    a_switch_does_what_the_profile_asks(s, target, elevated, foreground);
    let previous = s.active_profile;
    let run = switch_actions(previous, target);
    assert(actions_after_gaming(previous, target).len() <= 2);
    if target is Gaming {
        if previous is Focus {
            assert(run =~= seq![
                SwitchActionView::CheckElevation,
                SwitchActionView::SaveConfig,
                SwitchActionView::SaveConfig,
                SwitchActionView::SoftTrim(300, TrimTrigger::GamingMode),
                SwitchActionView::SuspendAllBloat,
                SwitchActionView::Return(Ok(())),
            ]);
        } else {
            assert(run =~= seq![
                SwitchActionView::CheckElevation,
                SwitchActionView::SaveConfig,
                SwitchActionView::SoftTrim(300, TrimTrigger::GamingMode),
                SwitchActionView::SuspendAllBloat,
                SwitchActionView::Return(Ok(())),
            ]);
        }
    } else if target is Focus {
        if previous is Gaming {
            assert(run =~= seq![
                SwitchActionView::SaveConfig,
                SwitchActionView::FindForeground,
                SwitchActionView::SoftTrim(600, TrimTrigger::Manual),
                SwitchActionView::ResumeAll,
                SwitchActionView::Return(Ok(())),
            ]);
        } else {
            assert(run =~= seq![
                SwitchActionView::SaveConfig,
                SwitchActionView::FindForeground,
                SwitchActionView::SoftTrim(600, TrimTrigger::Manual),
                SwitchActionView::Return(Ok(())),
            ]);
        }
    } else if previous is Focus {
        assert(run =~= seq![
            SwitchActionView::SaveConfig,
            SwitchActionView::SaveConfig,
            SwitchActionView::Return(Ok(())),
        ]);
    } else if previous is Gaming {
        assert(run =~= seq![
            SwitchActionView::SaveConfig,
            SwitchActionView::ResumeAll,
            SwitchActionView::Return(Ok(())),
        ]);
    } else {
        assert(run =~= seq![SwitchActionView::SaveConfig, SwitchActionView::Return(Ok(()))]);
    }
}

/// What a switch leaves behind. The profile is active and the settings name it.
/// Focus puts the idle time and the permission to suspend aside, where they are not
/// put aside already, goes by ten minutes and permits nothing, and spares the
/// application in the foreground. Leaving it puts both back and spares none. Any
/// other switch touches neither; and none touches anything else.
pub proof fn a_switch_changes_what_belongs_to_it(
    s: AppStateView,
    target: ProfileView,
    elevated: bool,
    foreground: Option<u32>,
)
    requires
        !(target is Gaming) || elevated,
    ensures
        ({
            let end = switch_run(
                s,
                s.active_profile,
                target,
                SwitchPhase::Start,
                elevated,
                foreground,
            ).0;
            let c = s.config;
            let leaves_focus = s.active_profile is Focus && !(target is Focus);
            &&& end.active_profile == target
            &&& end.config.active_profile == name_of(target)
            &&& target is Focus ==> {
                &&& end.config.idle_threshold_secs == 600 && !end.config.hard_suspend_enabled
                &&& c.pre_focus_idle_threshold is None ==> end.config.pre_focus_idle_threshold
                    == Some(c.idle_threshold_secs) && end.config.pre_focus_hard_suspend == Some(
                    c.hard_suspend_enabled,
                )
                &&& c.pre_focus_idle_threshold is Some ==> end.config.pre_focus_idle_threshold
                    == c.pre_focus_idle_threshold && end.config.pre_focus_hard_suspend
                    == c.pre_focus_hard_suspend
                &&& foreground is Some && foreground->0 != 0 && s.process_map.contains_key(
                    foreground->0,
                ) ==> end.session_excluded == Some(s.process_map[foreground->0].name@)
                &&& foreground is None || foreground->0 == 0 || !s.process_map.contains_key(
                    foreground->0,
                ) ==> end.session_excluded is None
            }
            &&& leaves_focus ==> {
                &&& c.pre_focus_idle_threshold matches Some(secs) ==> end.config.idle_threshold_secs
                    == secs
                &&& c.pre_focus_idle_threshold is None ==> end.config.idle_threshold_secs
                    == c.idle_threshold_secs
                &&& c.pre_focus_hard_suspend matches Some(allowed)
                    ==> end.config.hard_suspend_enabled == allowed
                &&& c.pre_focus_hard_suspend is None ==> end.config.hard_suspend_enabled
                    == c.hard_suspend_enabled
                &&& end.config.pre_focus_idle_threshold is None
                &&& end.config.pre_focus_hard_suspend is None
                &&& end.session_excluded is None
            }
            &&& !(target is Focus) && !leaves_focus ==> {
                &&& end.config == (UserConfigView { active_profile: name_of(target), ..c })
                &&& end.session_excluded == s.session_excluded
            }
            &&& end.config == (UserConfigView {
                active_profile: end.config.active_profile,
                idle_threshold_secs: end.config.idle_threshold_secs,
                hard_suspend_enabled: end.config.hard_suspend_enabled,
                pre_focus_idle_threshold: end.config.pre_focus_idle_threshold,
                pre_focus_hard_suspend: end.config.pre_focus_hard_suspend,
                ..c
            })
            &&& end == (AppStateView {
                active_profile: end.active_profile,
                config: end.config,
                session_excluded: end.session_excluded,
                ..s
            })
        }),
{
    a_switch_does_what_the_profile_asks(s, target, elevated, foreground);
}

/// Each step of a switch finds the state ready: the settings are saved once they name
/// the profile, and once more when those put aside are back; the application in the
/// foreground is spared before anything is trimmed for Focus; and a refusal of Gaming
/// mode leaves all as it was.
pub proof fn a_switch_is_ready_for_each_step(
    s: AppStateView,
    target: ProfileView,
    elevated: bool,
    pid: u32,
    previous: ProfileView,
)
    ensures
        ({
            let start = switch_effect(s, previous, target, SwitchPhase::Start, SwitchReply::Done);
            let reply = SwitchReply::Elevated(elevated);
            let checked = switch_effect(s, previous, target, SwitchPhase::CheckingElevation, reply);
            let saved = switch_effect(s, previous, target, SwitchPhase::Saving, SwitchReply::Done);
            let spared = switch_effect(
                s,
                previous,
                target,
                SwitchPhase::FindingForeground,
                SwitchReply::Foreground(Some(pid)),
            );
            &&& !(target is Gaming) ==> start.active_profile == target
                && start.config.active_profile == name_of(target)
            &&& target is Focus ==> start.config.idle_threshold_secs == 600
                && !start.config.hard_suspend_enabled
            &&& target is Gaming ==> start == s
            &&& elevated ==> checked.active_profile == target && checked.config.active_profile
                == name_of(target)
            &&& !elevated ==> checked == s
            &&& previous is Focus && !(target is Focus) ==> saved.session_excluded is None
                && saved.config.pre_focus_idle_threshold is None
                && saved.config.pre_focus_hard_suspend is None
            &&& !(previous is Focus) || target is Focus ==> saved == s
            &&& pid != 0 && s.process_map.contains_key(pid) ==> spared.session_excluded == Some(
                s.process_map[pid].name@,
            )
        }),
{
}

// ---------------------------------------------------------------------------
// Suspending all bloat
// ---------------------------------------------------------------------------

/// The lists one behind the other.
pub open spec fn chained(parts: Seq<Seq<u32>>) -> Seq<u32>
    decreases parts.len(),
{
    if parts.len() == 0 {
        Seq::empty()
    } else {
        chained(parts.drop_last()) + parts.last()
    }
}

/// `parts` holds, for each known category in order, its running processes.
pub open spec fn lists_each_category(parts: Seq<Seq<u32>>, m: Map<u32, ProcessEntry>) -> bool {
    &&& parts.len() == bloat_names().len()
    &&& forall|i: int|
        0 <= i < parts.len() ==> lists_bloat(#[trigger] parts[i], bloat_names()[i], m)
}

/// The processes to hard-suspend so that no bloat service runs: category by
/// category, those that run.
pub fn suspend_all_bloat(state: &AppState) -> (r: Vec<u32>)
    ensures
        exists|parts: Seq<Seq<u32>>|
            lists_each_category(parts, state@.process_map) && r@ == #[trigger] chained(parts),
{
    let names: Vec<&'static str> = known_bloat_names();
    let ghost m = state@.process_map;
    let ghost mut parts: Seq<Seq<u32>> = Seq::empty();
    let mut r: Vec<u32> = Vec::new();
    let mut i: usize = 0;
    while i < names.len()
        invariant
            i <= names@.len(),
            m == state@.process_map,
            str_texts(names@) == bloat_names(),
            parts.len() == i,
            forall|k: int| 0 <= k < i ==> lists_bloat(#[trigger] parts[k], bloat_names()[k], m),
            r@ == chained(parts),
        decreases names@.len() - i,
    {
        let pids: Vec<u32> = get_bloat_pids(names[i], state);
        assert(names@[i as int]@ == str_texts(names@)[i as int]);
        let ghost before = r@;
        let mut j: usize = 0;
        while j < pids.len()
            invariant
                j <= pids@.len(),
                r@ == before + pids@.take(j as int),
            decreases pids@.len() - j,
        {
            r.push(pids[j]);
            j = j + 1;
            assert(r@ =~= before + pids@.take(j as int));
        }
        proof {
            let longer = parts.push(pids@);
            assert(longer.drop_last() =~= parts);
            assert(pids@.take(j as int) =~= pids@);
            parts = longer;
        }
        i = i + 1;
    }
    assert(str_texts(names@).len() == names@.len());
    assert(lists_each_category(parts, m));
    r
}

proof fn lemma_chained(parts: Seq<Seq<u32>>, pid: u32)
    ensures
        chained(parts).contains(pid) <==> exists|i: int|
            0 <= i < parts.len() && (#[trigger] parts[i]).contains(pid),
    decreases parts.len(),
{
    if parts.len() > 0 {
        let front = parts.drop_last();
        let last = parts.last();
        lemma_chained(front, pid);
        let head = chained(front);
        let all = chained(parts);
        if all.contains(pid) {
            let k = choose|k: int| 0 <= k < all.len() && all[k] == pid;
            if k < head.len() {
                assert(head[k] == pid);
                let i = choose|i: int| 0 <= i < front.len() && (#[trigger] front[i]).contains(pid);
                assert(parts[i].contains(pid));
            } else {
                assert(last[k - head.len()] == pid);
                assert(parts[parts.len() - 1].contains(pid));
            }
        }
        if exists|i: int| 0 <= i < parts.len() && (#[trigger] parts[i]).contains(pid) {
            let i = choose|i: int| 0 <= i < parts.len() && (#[trigger] parts[i]).contains(pid);
            if i < front.len() {
                assert(front[i].contains(pid));
                let k = choose|k: int| 0 <= k < head.len() && head[k] == pid;
                assert(all[k] == pid);
            } else {
                let k = choose|k: int| 0 <= k < last.len() && last[k] == pid;
                assert(all[head.len() + k] == pid);
            }
        }
    }
}

/// Suspending all bloat services reaches just the processes that run, in any case
/// of its name, an executable of one of them.
pub proof fn suspending_all_bloat_reaches_every_service(
    parts: Seq<Seq<u32>>,
    m: Map<u32, ProcessEntry>,
    pid: u32,
)
    requires
        lists_each_category(parts, m),
    ensures
        chained(parts).contains(pid) <==> m.contains_key(pid) && exists|i: int, k: int|
            0 <= i < known_bloat().len() && 0 <= k < known_bloat()[i].exe_names.len() && lowered(
                #[trigger] known_bloat()[i].exe_names[k],
            ) == lowered(m[pid].name@),
{
    lemma_chained(parts, pid);
    assert forall|i: int| 0 <= i < parts.len() implies ((#[trigger] parts[i]).contains(pid)
        <==> m.contains_key(pid) && exists|k: int|
        0 <= k < known_bloat()[i].exe_names.len() && lowered(
            #[trigger] known_bloat()[i].exe_names[k],
        ) == lowered(m[pid].name@)) by {
        assert(lists_bloat(parts[i], bloat_names()[i], m));
        a_lookup_gives_the_processes_of_the_service(parts[i], bloat_names()[i], m);
        assert(lowered(known_bloat()[i].display_name) == lowered(bloat_names()[i]));
    }
    if m.contains_key(pid) && exists|i: int, k: int|
        0 <= i < known_bloat().len() && 0 <= k < known_bloat()[i].exe_names.len() && lowered(
            #[trigger] known_bloat()[i].exe_names[k],
        ) == lowered(m[pid].name@) {
        let (i, k) = choose|i: int, k: int|
            0 <= i < known_bloat().len() && 0 <= k < known_bloat()[i].exe_names.len() && lowered(
                #[trigger] known_bloat()[i].exe_names[k],
            ) == lowered(m[pid].name@);
        assert(parts[i].contains(pid));
    }
}

} // verus!
