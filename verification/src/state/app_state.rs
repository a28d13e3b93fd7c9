//! The live data of the running application.

use std::collections::{HashMap, HashSet};

use vstd::prelude::*;

use crate::state::config::{clone_texts, UserConfig, UserConfigView};
use crate::text::{lowered, opt_text, same_text, texts, to_lowercase};

verus! {

// ---------------------------------------------------------------------------
// Processes
// ---------------------------------------------------------------------------

/// Processor time used over one poll interval, both in ticks of 100 ns.
#[derive(Debug, Clone, Copy, PartialEq, Eq, Structural)]
pub struct CpuSample {
    /// Ticks the process was busy; never more than the interval.
    pub busy_ticks: u64,
    /// Length of the interval; zero where nothing was measured yet.
    pub interval_ticks: u64,
}

/// Data for a single running process.
#[derive(Debug)]
pub struct ProcessEntry {
    /// Process id.
    pub pid: u32,
    /// Executable name (for example "chrome.exe").
    pub name: String,
    /// Private working set in bytes.
    pub ram_bytes: u64,
    /// Processor use over the last poll interval.
    pub cpu: CpuSample,
    /// Seconds since the process last showed measurable processor activity.
    pub idle_seconds: u64,
    /// Whether the process is hard-suspended.
    pub is_suspended: bool,
    /// System process that is never trimmed.
    pub is_protected: bool,
    /// Excluded from all automatic actions.
    pub is_excluded: bool,
    /// Whether the process owns at least one visible window.
    pub has_window: bool,
    /// Data URL of the process icon, where there is one.
    pub icon_data_url: Option<String>,
    /// Monotonic time of the last observed activity, in nanoseconds.
    pub last_active_at: Option<u64>,
    /// Kernel-mode time at the last poll, in ticks.
    pub prev_kernel_time: u64,
    /// User-mode time at the last poll, in ticks.
    pub prev_user_time: u64,
}

/// A process as plain mathematical values.
#[verifier::ext_equal]
pub struct ProcessEntryView {
    pub pid: u32,
    pub name: Seq<char>,
    pub ram_bytes: u64,
    pub cpu: CpuSample,
    pub idle_seconds: u64,
    pub is_suspended: bool,
    pub is_protected: bool,
    pub is_excluded: bool,
    pub has_window: bool,
    pub icon_data_url: Option<Seq<char>>,
    pub last_active_at: Option<u64>,
    pub prev_kernel_time: u64,
    pub prev_user_time: u64,
}

impl View for ProcessEntry {
    type V = ProcessEntryView;

    open spec fn view(&self) -> ProcessEntryView {
        ProcessEntryView {
            pid: self.pid,
            name: self.name@,
            ram_bytes: self.ram_bytes,
            cpu: self.cpu,
            idle_seconds: self.idle_seconds,
            is_suspended: self.is_suspended,
            is_protected: self.is_protected,
            is_excluded: self.is_excluded,
            has_window: self.has_window,
            icon_data_url: opt_text(self.icon_data_url),
            last_active_at: self.last_active_at,
            prev_kernel_time: self.prev_kernel_time,
            prev_user_time: self.prev_user_time,
        }
    }
}

/// The processes of a map.
pub open spec fn entry_views(m: Map<u32, ProcessEntry>) -> Map<u32, ProcessEntryView> {
    Map::new(|pid: u32| m.contains_key(pid), |pid: u32| m[pid]@)
}

/// Copies an optional string.
pub fn clone_opt_text(s: &Option<String>) -> (r: Option<String>)
    ensures
        r == *s,
{
    match s {
        Some(t) => Some(t.clone()),
        None => None,
    }
}

impl Clone for ProcessEntry {
    fn clone(&self) -> (r: Self)
        ensures
            r == *self,
    {
        ProcessEntry {
            pid: self.pid,
            name: self.name.clone(),
            ram_bytes: self.ram_bytes,
            cpu: self.cpu,
            idle_seconds: self.idle_seconds,
            is_suspended: self.is_suspended,
            is_protected: self.is_protected,
            is_excluded: self.is_excluded,
            has_window: self.has_window,
            icon_data_url: clone_opt_text(&self.icon_data_url),
            last_active_at: self.last_active_at,
            prev_kernel_time: self.prev_kernel_time,
            prev_user_time: self.prev_user_time,
        }
    }
}

// ---------------------------------------------------------------------------
// Memory
// ---------------------------------------------------------------------------

/// Memory pressure by category.
#[derive(Debug, Clone, Copy, PartialEq, Eq, Structural)]
pub enum PressureLevel {
    /// Below 70 % used.
    Low,
    /// 70 to 84 % used.
    Medium,
    /// 85 to 94 % used.
    High,
    /// 95 % used or more.
    Critical,
}

/// The category of a pressure percentage.
pub open spec fn pressure_level(pct: u32) -> PressureLevel {
    if pct >= 95 {
        PressureLevel::Critical
    } else if pct >= 85 {
        PressureLevel::High
    } else if pct >= 70 {
        PressureLevel::Medium
    } else {
        PressureLevel::Low
    }
}

impl PressureLevel {
    /// How severe a level is.
    pub open spec fn severity(self) -> int {
        match self {
            PressureLevel::Low => 0,
            PressureLevel::Medium => 1,
            PressureLevel::High => 2,
            PressureLevel::Critical => 3,
        }
    }

    /// The category of a pressure percentage.
    pub fn from_pct(pct: u32) -> (r: Self)
        ensures
            r == pressure_level(pct),
    {
        if pct >= 95 {
            PressureLevel::Critical
        } else if pct >= 85 {
            PressureLevel::High
        } else if pct >= 70 {
            PressureLevel::Medium
        } else {
            PressureLevel::Low
        }
    }
}

/// The levels of pressure: high from 85 percent on, critical from 95, and medium
/// between 70 and 85.
pub proof fn pressure_levels_have_their_bounds(pct: u32)
    ensures
        pressure_level(pct) is Low <==> pct < 70,
        pressure_level(pct) is Medium <==> 70 <= pct <= 84,
        pressure_level(pct) is High <==> 85 <= pct <= 94,
        pressure_level(pct) is Critical <==> 95 <= pct,
{
}

/// More pressure is never a milder level.
pub proof fn pressure_level_is_monotone(a: u32, b: u32)
    requires
        a <= b,
    ensures
        pressure_level(a).severity() <= pressure_level(b).severity(),
{
}

/// System-wide memory figures.
#[derive(Debug, Clone, Copy, PartialEq, Eq, Structural)]
pub struct RamStats {
    /// Physical memory in the system (MB).
    pub total_mb: u64,
    /// Memory in use (MB).
    pub used_mb: u64,
    /// Memory available (MB).
    pub available_mb: u64,
    /// Memory load as a percentage.
    pub pressure_pct: u32,
    /// Category of `pressure_pct`.
    pub pressure_level: PressureLevel,
}

/// The figures before the first measurement.
pub open spec fn no_ram_stats() -> RamStats {
    RamStats {
        total_mb: 0,
        used_mb: 0,
        available_mb: 0,
        pressure_pct: 0,
        pressure_level: PressureLevel::Low,
    }
}

impl Default for RamStats {
    fn default() -> (r: Self)
        ensures
            r == no_ram_stats(),
    {
        RamStats {
            total_mb: 0,
            used_mb: 0,
            available_mb: 0,
            pressure_pct: 0,
            pressure_level: PressureLevel::Low,
        }
    }
}

// ---------------------------------------------------------------------------
// Trims
// ---------------------------------------------------------------------------

/// A point in wall-clock time, counted from the Unix epoch.
#[derive(Debug, Clone, Copy, PartialEq, Eq, Structural)]
pub struct Timestamp {
    pub secs: u64,
    pub nanos: u32,
}

/// What one process gave back in a trim.
#[derive(Debug)]
pub struct ProcessTrimRecord {
    /// Name shown for the process.
    pub name: String,
    /// Bytes freed from its working set.
    pub freed_bytes: u64,
}

/// A trim record as plain mathematical values.
#[verifier::ext_equal]
pub struct ProcessTrimRecordView {
    pub name: Seq<char>,
    pub freed_bytes: u64,
}

impl View for ProcessTrimRecord {
    type V = ProcessTrimRecordView;

    open spec fn view(&self) -> ProcessTrimRecordView {
        ProcessTrimRecordView { name: self.name@, freed_bytes: self.freed_bytes }
    }
}

/// Summary of a trim.
#[derive(Debug)]
pub struct TrimResult {
    /// Bytes reclaimed.
    pub freed_bytes: u64,
    /// Number of processes whose working sets were trimmed.
    pub processes_trimmed: u32,
    /// When the trim completed.
    pub timestamp: Timestamp,
    /// The processes that were trimmed.
    pub unique_pids: Vec<u32>,
    /// What each process gave back, where that was more than nothing.
    pub per_process: Vec<ProcessTrimRecord>,
}

/// A trim summary as plain mathematical values.
#[verifier::ext_equal]
pub struct TrimResultView {
    pub freed_bytes: u64,
    pub processes_trimmed: u32,
    pub timestamp: Timestamp,
    pub unique_pids: Seq<u32>,
    pub per_process: Seq<ProcessTrimRecordView>,
}

/// The records of a list.
pub open spec fn record_views(list: Seq<ProcessTrimRecord>) -> Seq<ProcessTrimRecordView> {
    Seq::new(list.len(), |i: int| list[i]@)
}

impl View for TrimResult {
    type V = TrimResultView;

    open spec fn view(&self) -> TrimResultView {
        TrimResultView {
            freed_bytes: self.freed_bytes,
            processes_trimmed: self.processes_trimmed,
            timestamp: self.timestamp,
            unique_pids: self.unique_pids@,
            per_process: record_views(self.per_process@),
        }
    }
}

impl Clone for TrimResult {
    fn clone(&self) -> (r: Self)
        ensures
            r@ == self@,
    {
        let mut pids: Vec<u32> = Vec::new();
        let mut i: usize = 0;
        while i < self.unique_pids.len()
            invariant
                i <= self.unique_pids@.len(),
                pids@ == self.unique_pids@.take(i as int),
            decreases self.unique_pids@.len() - i,
        {
            pids.push(self.unique_pids[i]);
            i = i + 1;
        }
        let mut records: Vec<ProcessTrimRecord> = Vec::new();
        let mut j: usize = 0;
        while j < self.per_process.len()
            invariant
                j <= self.per_process@.len(),
                records@.len() == j,
                forall|k: int| 0 <= k < j ==> (#[trigger] records@[k])@ == self.per_process@[k]@,
            decreases self.per_process@.len() - j,
        {
            let record: &ProcessTrimRecord = &self.per_process[j];
            records.push(
                ProcessTrimRecord { name: record.name.clone(), freed_bytes: record.freed_bytes },
            );
            j = j + 1;
        }
        assert(record_views(records@) =~= record_views(self.per_process@));
        assert(pids@ =~= self.unique_pids@);
        TrimResult {
            freed_bytes: self.freed_bytes,
            processes_trimmed: self.processes_trimmed,
            timestamp: self.timestamp,
            unique_pids: pids,
            per_process: records,
        }
    }
}

/// What caused a trim.
#[derive(Debug, Clone, Copy, PartialEq, Eq, Structural)]
pub enum TrimTrigger {
    /// The pressure threshold.
    Auto,
    /// The user.
    Manual,
    /// Entering Gaming mode.
    GamingMode,
}

/// One entry of the trim history.
#[derive(Debug)]
pub struct TrimEvent {
    /// The outcome of the trim.
    pub result: TrimResult,
    /// What caused it.
    pub trigger: TrimTrigger,
}

/// A history entry as plain mathematical values.
#[verifier::ext_equal]
pub struct TrimEventView {
    pub result: TrimResultView,
    pub trigger: TrimTrigger,
}

impl View for TrimEvent {
    type V = TrimEventView;

    open spec fn view(&self) -> TrimEventView {
        TrimEventView { result: self.result@, trigger: self.trigger }
    }
}

impl Clone for TrimEvent {
    fn clone(&self) -> (r: Self)
        ensures
            r@ == self@,
    {
        TrimEvent { result: self.result.clone(), trigger: self.trigger }
    }
}

/// The entries of a history.
pub open spec fn event_views(list: Seq<TrimEvent>) -> Seq<TrimEventView> {
    Seq::new(list.len(), |i: int| list[i]@)
}

/// The summary of an optional trim.
pub open spec fn opt_result_view(r: Option<TrimResult>) -> Option<TrimResultView> {
    match r {
        Some(r) => Some(r@),
        None => None,
    }
}

// ---------------------------------------------------------------------------
// Bloat
// ---------------------------------------------------------------------------

/// A known bloat service with its current memory cost.
#[derive(Debug)]
pub struct BloatEntry {
    /// Display name.
    pub name: String,
    /// Executable names that belong to the service.
    pub exe_names: Vec<String>,
    /// Memory used by all matching processes, in bytes.
    pub ram_bytes: u128,
    /// Whether the service runs and all its processes are hard-suspended.
    pub is_suspended: bool,
}

/// A bloat entry as plain mathematical values.
#[verifier::ext_equal]
pub struct BloatEntryView {
    pub name: Seq<char>,
    pub exe_names: Seq<Seq<char>>,
    pub ram_bytes: nat,
    pub is_suspended: bool,
}

impl View for BloatEntry {
    type V = BloatEntryView;

    open spec fn view(&self) -> BloatEntryView {
        BloatEntryView {
            name: self.name@,
            exe_names: texts(self.exe_names@),
            ram_bytes: self.ram_bytes as nat,
            is_suspended: self.is_suspended,
        }
    }
}

impl Clone for BloatEntry {
    fn clone(&self) -> (r: Self)
        ensures
            r@ == self@,
    {
        BloatEntry {
            name: self.name.clone(),
            exe_names: clone_texts(&self.exe_names),
            ram_bytes: self.ram_bytes,
            is_suspended: self.is_suspended,
        }
    }
}

/// The entries of a bloat list.
pub open spec fn bloat_views(list: Seq<BloatEntry>) -> Seq<BloatEntryView> {
    Seq::new(list.len(), |i: int| list[i]@)
}

// ---------------------------------------------------------------------------
// Profiles
// ---------------------------------------------------------------------------

/// A user-defined profile.
#[derive(Debug, PartialEq)]
pub struct CustomProfile {
    /// Display name.
    pub name: String,
    /// Minimum idle time (seconds) before a process is eligible for trimming.
    pub idle_threshold_secs: u64,
    /// Whether hard suspend is enabled.
    pub use_hard_suspend: bool,
    /// Executable names excluded from all automatic actions in this profile.
    pub excluded_apps: Vec<String>,
}

/// A user-defined profile as plain mathematical values.
#[verifier::ext_equal]
pub struct CustomProfileView {
    pub name: Seq<char>,
    pub idle_threshold_secs: u64,
    pub use_hard_suspend: bool,
    pub excluded_apps: Seq<Seq<char>>,
}

impl View for CustomProfile {
    type V = CustomProfileView;

    open spec fn view(&self) -> CustomProfileView {
        CustomProfileView {
            name: self.name@,
            idle_threshold_secs: self.idle_threshold_secs,
            use_hard_suspend: self.use_hard_suspend,
            excluded_apps: texts(self.excluded_apps@),
        }
    }
}

/// The user-defined profile before the user changes it.
pub open spec fn default_custom_profile() -> CustomProfileView {
    CustomProfileView {
        name: "Custom"@,
        idle_threshold_secs: 600,
        use_hard_suspend: false,
        excluded_apps: Seq::empty(),
    }
}

impl Default for CustomProfile {
    fn default() -> (r: Self)
        ensures
            r@ == default_custom_profile(),
    {
        let r = CustomProfile {
            name: "Custom".to_owned(),
            idle_threshold_secs: 600,
            use_hard_suspend: false,
            excluded_apps: Vec::new(),
        };
        assert(r@.excluded_apps =~= Seq::<Seq<char>>::empty());
        r
    }
}

impl Clone for CustomProfile {
    fn clone(&self) -> (r: Self)
        ensures
            r@ == self@,
    {
        CustomProfile {
            name: self.name.clone(),
            idle_threshold_secs: self.idle_threshold_secs,
            use_hard_suspend: self.use_hard_suspend,
            excluded_apps: clone_texts(&self.excluded_apps),
        }
    }
}

/// Operational mode that controls how eagerly memory is reclaimed.
#[derive(Debug, PartialEq)]
pub enum Profile {
    /// 15-minute idle threshold, soft trim only.
    Work,
    /// 5-minute idle threshold, soft trim and hard suspend.
    Gaming,
    /// 10-minute idle threshold, soft trim only, spares the active application.
    Focus,
    /// User-defined.
    Custom(CustomProfile),
}

/// A profile as plain mathematical values.
#[verifier::ext_equal]
pub enum ProfileView {
    Work,
    Gaming,
    Focus,
    Custom(CustomProfileView),
}

impl View for Profile {
    type V = ProfileView;

    open spec fn view(&self) -> ProfileView {
        match self {
            Profile::Work => ProfileView::Work,
            Profile::Gaming => ProfileView::Gaming,
            Profile::Focus => ProfileView::Focus,
            Profile::Custom(cp) => ProfileView::Custom(cp@),
        }
    }
}

impl Clone for Profile {
    fn clone(&self) -> (r: Self)
        ensures
            r@ == self@,
    {
        match self {
            Profile::Work => Profile::Work,
            Profile::Gaming => Profile::Gaming,
            Profile::Focus => Profile::Focus,
            Profile::Custom(cp) => Profile::Custom(cp.clone()),
        }
    }
}

/// The profile that a name stands for; Work where the name is unknown.
pub open spec fn profile_named(name: Seq<char>) -> ProfileView {
    let lower = lowered(name);
    if lower == "gaming"@ {
        ProfileView::Gaming
    } else if lower == "focus"@ {
        ProfileView::Focus
    } else if lower == "custom"@ {
        ProfileView::Custom(default_custom_profile())
    } else {
        ProfileView::Work
    }
}

impl ProfileView {
    /// Idle threshold in seconds.
    pub open spec fn idle_threshold_secs(self) -> u64 {
        match self {
            ProfileView::Work => 900,
            ProfileView::Gaming => 300,
            ProfileView::Focus => 600,
            ProfileView::Custom(cp) => cp.idle_threshold_secs,
        }
    }

    /// Whether hard suspend is enabled.
    pub open spec fn hard_suspend_enabled(self) -> bool {
        match self {
            ProfileView::Gaming => true,
            ProfileView::Custom(cp) => cp.use_hard_suspend,
            _ => false,
        }
    }
}

impl Profile {
    /// The profile that a name stands for, whatever its case; Work where the
    /// name is unknown.
    pub fn from_name(name: &str) -> (r: Self)
        ensures
            r@ == profile_named(name@),
    {
        let lower: String = to_lowercase(name);
        if same_text(lower.as_str(), "gaming") {
            Profile::Gaming
        } else if same_text(lower.as_str(), "focus") {
            Profile::Focus
        } else if same_text(lower.as_str(), "custom") {
            Profile::Custom(CustomProfile::default())
        } else {
            Profile::Work
        }
    }

    /// Idle threshold in seconds.
    pub fn idle_threshold_secs(&self) -> (r: u64)
        ensures
            r == self@.idle_threshold_secs(),
    {
        match self {
            Profile::Work => 900,
            Profile::Gaming => 300,
            Profile::Focus => 600,
            Profile::Custom(cp) => cp.idle_threshold_secs,
        }
    }

    /// Whether hard suspend is enabled.
    pub fn hard_suspend_enabled(&self) -> (r: bool)
        ensures
            r == self@.hard_suspend_enabled(),
    {
        match self {
            Profile::Gaming => true,
            Profile::Custom(cp) => cp.use_hard_suspend,
            _ => false,
        }
    }

    /// Whether bloat services are suspended on activation.
    pub fn auto_suspend_bloat(&self) -> (r: bool)
        ensures
            r == (self@ == ProfileView::Gaming),
    {
        self.is_gaming()
    }

    /// Whether this is Gaming mode.
    pub fn is_gaming(&self) -> (r: bool)
        ensures
            r == (self@ == ProfileView::Gaming),
    {
        match self {
            Profile::Gaming => true,
            _ => false,
        }
    }

    /// Whether this is Focus mode.
    pub fn is_focus(&self) -> (r: bool)
        ensures
            r == (self@ == ProfileView::Focus),
    {
        match self {
            Profile::Focus => true,
            _ => false,
        }
    }
}

/// A profile goes by its name in any case, and whatever is not known is Work. Each
/// has its idle time; hard suspend belongs to Gaming mode, and to a user-defined
/// profile that asks for it.
pub proof fn profiles_go_by_their_names(name: Seq<char>, profile: ProfileView)
    ensures
        profile_named(name) is Gaming <==> lowered(name) == "gaming"@,
        profile_named(name) is Focus <==> lowered(name) == "focus"@,
        profile_named(name) is Custom <==> lowered(name) == "custom"@,
        profile_named(name) matches ProfileView::Custom(own) ==> own.idle_threshold_secs == 600
            && !own.use_hard_suspend && own.excluded_apps.len() == 0 && own.name == "Custom"@,
        profile is Work ==> profile.idle_threshold_secs() == 900,
        profile is Gaming ==> profile.idle_threshold_secs() == 300,
        profile is Focus ==> profile.idle_threshold_secs() == 600,
        profile matches ProfileView::Custom(own) ==> profile.idle_threshold_secs()
            == own.idle_threshold_secs,
        profile.hard_suspend_enabled() <==> profile is Gaming || (profile matches ProfileView::Custom(
            own,
        ) && own.use_hard_suspend),
{
    reveal_strlit("gaming");
    reveal_strlit("focus");
    reveal_strlit("custom");
    assert("gaming"@[0] == 'g' && "custom"@[0] == 'c' && "focus"@.len() == 5);
    assert("gaming"@.len() == 6 && "custom"@.len() == 6);
}

// ---------------------------------------------------------------------------
// The whole state
// ---------------------------------------------------------------------------

/// All live data.
#[derive(Debug)]
pub struct AppState {
    /// Process id to process data.
    pub process_map: HashMap<u32, ProcessEntry>,
    /// Processes that are hard-suspended.
    pub suspended_set: HashSet<u32>,
    /// The active profile.
    pub active_profile: Profile,
    /// Current memory figures.
    pub ram_stats: RamStats,
    /// Bloat services found in the last poll.
    pub bloat_list: Vec<BloatEntry>,
    /// The most recent trim.
    pub last_trim_result: Option<TrimResult>,
    /// The user's settings.
    pub config: UserConfig,
    /// Past trims, oldest first.
    pub trim_history: Vec<TrimEvent>,
    /// Monotonic time of the last automatic trim, in nanoseconds.
    pub last_auto_trim_at: Option<u64>,
    /// Whether processes can be hard-suspended on this system.
    pub suspender_available: bool,
    /// Process name spared for the current Focus session.
    pub session_excluded: Option<String>,
}

/// The whole state as plain mathematical values.
#[verifier::ext_equal]
pub struct AppStateView {
    pub process_map: Map<u32, ProcessEntry>,
    pub suspended_set: Set<u32>,
    pub active_profile: ProfileView,
    pub ram_stats: RamStats,
    pub bloat_list: Seq<BloatEntryView>,
    pub last_trim_result: Option<TrimResultView>,
    pub config: UserConfigView,
    pub trim_history: Seq<TrimEventView>,
    pub last_auto_trim_at: Option<u64>,
    pub suspender_available: bool,
    pub session_excluded: Option<Seq<char>>,
}

impl View for AppState {
    type V = AppStateView;

    open spec fn view(&self) -> AppStateView {
        AppStateView {
            process_map: self.process_map@,
            suspended_set: self.suspended_set@,
            active_profile: self.active_profile@,
            ram_stats: self.ram_stats,
            bloat_list: bloat_views(self.bloat_list@),
            last_trim_result: opt_result_view(self.last_trim_result),
            config: self.config@,
            trim_history: event_views(self.trim_history@),
            last_auto_trim_at: self.last_auto_trim_at,
            suspender_available: self.suspender_available,
            session_excluded: opt_text(self.session_excluded),
        }
    }
}

impl AppStateView {
    /// Each process is filed under its own id, and its flag tells whether it is
    /// in the suspended set.
    pub open spec fn consistent(self) -> bool {
        forall|pid: u32| #[trigger]
            self.process_map.contains_key(pid) ==> self.process_map[pid].pid == pid
                && self.process_map[pid].is_suspended == self.suspended_set.contains(pid)
    }
}

/// The state at start-up under given settings.
pub open spec fn initial_state(config: UserConfigView) -> AppStateView {
    AppStateView {
        process_map: Map::empty(),
        suspended_set: Set::empty(),
        active_profile: profile_named(config.active_profile),
        ram_stats: no_ram_stats(),
        bloat_list: Seq::empty(),
        last_trim_result: None,
        config,
        trim_history: Seq::empty(),
        last_auto_trim_at: None,
        suspender_available: false,
        session_excluded: None,
    }
}

impl AppState {
    /// The state at start-up.
    pub fn new(config: UserConfig) -> (r: Self)
        ensures
            r@ == initial_state(config@),
            r@.consistent(),
    {
        let active_profile = Profile::from_name(config.active_profile.as_str());
        let r = AppState {
            process_map: HashMap::new(),
            suspended_set: HashSet::new(),
            active_profile,
            ram_stats: RamStats::default(),
            bloat_list: Vec::new(),
            last_trim_result: None,
            config,
            trim_history: Vec::new(),
            last_auto_trim_at: None,
            suspender_available: false,
            session_excluded: None,
        };
        assert(r@.bloat_list =~= Seq::empty());
        assert(r@.trim_history =~= Seq::empty());
        r
    }
}

/// The application starts with the profile that the settings name, and knows of no
/// process and no trim yet.
pub proof fn a_fresh_state_follows_the_settings(config: UserConfigView)
    ensures
        ({
            let s = initial_state(config);
            &&& s.config == config
            &&& s.active_profile is Gaming <==> lowered(config.active_profile) == "gaming"@
            &&& s.active_profile is Focus <==> lowered(config.active_profile) == "focus"@
            &&& s.active_profile is Custom <==> lowered(config.active_profile) == "custom"@
            &&& s.process_map.dom() == Set::<u32>::empty()
            &&& s.suspended_set == Set::<u32>::empty()
            &&& s.trim_history.len() == 0 && s.bloat_list.len() == 0
            &&& s.last_trim_result is None && s.last_auto_trim_at is None
            &&& s.session_excluded is None && !s.suspender_available
        }),
{
    profiles_go_by_their_names(config.active_profile, ProfileView::Work);
    assert(initial_state(config).process_map.dom() =~= Set::<u32>::empty());
}

} // verus!
