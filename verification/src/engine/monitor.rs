//! The poll: what is learnt about every process, and what follows from it.

use std::collections::HashSet;

use vstd::prelude::*;

use crate::engine::bloat_scan::{bloat_entry, known_bloat, scan_bloat, scanned};
use crate::engine::process_table::{all_pids, enumerates};
use crate::engine::profiler::{
    is_busy, seconds_between, update_idle_times, with_idle_time, with_idle_times, NANOS_PER_SEC,
};
use crate::state::app_state::{
    bloat_views, clone_opt_text, entry_views, pressure_level, AppState, AppStateView, CpuSample,
    PressureLevel, ProcessEntry, ProcessEntryView, Profile, ProfileView, RamStats,
};
use crate::state::config::UserConfigView;
use crate::text::{
    after_last, contains, contains_part, is_one_of, last_component, list_contains, lowercase_all,
    lowered, lowered_all, occurs_at_spec, opt_text, starts_with, str_texts, texts,
    the_last_component_follows_the_last_separator, to_lowercase,
};

verus! {

broadcast use vstd::std_specs::hash::group_hash_axioms;

/// Ticks of 100 ns in a second.
pub const TICKS_PER_SEC: u64 = 10_000_000;

/// Seconds between two polls.
pub const POLL_SECS: u64 = 5;

/// Ticks between two polls.
pub const POLL_TICKS: u64 = 50_000_000;

// ---------------------------------------------------------------------------
// Names
// ---------------------------------------------------------------------------

/// Browsers look after their own memory and are never trimmed.
pub open spec fn browser_names() -> Seq<Seq<char>> {
    seq![
        "chrome.exe"@,
        "msedge.exe"@,
        "firefox.exe"@,
        "brave.exe"@,
        "opera.exe"@,
        "vivaldi.exe"@,
        "arc.exe"@,
    ]
}

fn browsers() -> (r: Vec<&'static str>)
    ensures
        str_texts(r@) == browser_names(),
{
    let mut r: Vec<&'static str> = Vec::new();
    r.push("chrome.exe");
    r.push("msedge.exe");
    r.push("firefox.exe");
    r.push("brave.exe");
    r.push("opera.exe");
    r.push("vivaldi.exe");
    r.push("arc.exe");
    assert(str_texts(r@) =~= browser_names());
    r
}

/// Whether a process is a browser, whatever the case of its name.
pub fn is_browser(name: &str) -> (r: bool)
    ensures
        r == browser_names().contains(lowered(name@)),
{
    let lower: String = to_lowercase(name);
    is_one_of(lower.as_str(), &browsers())
}

/// Processes that are never trimmed.
pub open spec fn protected_names() -> Seq<Seq<char>> {
    seq![
        "explorer.exe"@,
        "lsass.exe"@,
        "winlogon.exe"@,
        "csrss.exe"@,
        "svchost.exe"@,
        "dwm.exe"@,
        "wininit.exe"@,
        "services.exe"@,
        "smss.exe"@,
        "registry"@,
        "system"@,
        "secure system"@,
        "gingify.exe"@,
        "language_server_windows_x64.exe"@,
    ]
}

fn protected() -> (r: Vec<&'static str>)
    ensures
        str_texts(r@) == protected_names(),
{
    let mut r: Vec<&'static str> = Vec::new();
    r.push("explorer.exe");
    r.push("lsass.exe");
    r.push("winlogon.exe");
    r.push("csrss.exe");
    r.push("svchost.exe");
    r.push("dwm.exe");
    r.push("wininit.exe");
    r.push("services.exe");
    r.push("smss.exe");
    r.push("registry");
    r.push("system");
    r.push("secure system");
    r.push("gingify.exe");
    r.push("language_server_windows_x64.exe");
    assert(str_texts(r@) =~= protected_names());
    r
}

/// Whether a process is protected by its name, whatever the case of the name.
pub fn is_protected(name: &str) -> (r: bool)
    ensures
        r == protected_names().contains(lowered(name@)),
{
    let lower: String = to_lowercase(name);
    is_one_of(lower.as_str(), &protected())
}

/// A path below a system directory or an embedded web view.
pub open spec fn names_system_path(path: Seq<char>) -> bool {
    let lower = lowered(path);
    ||| "c:\\windows\\"@.is_prefix_of(lower)
    ||| "c:\\program files\\windowsapps\\"@.is_prefix_of(lower)
    ||| contains_part(lower, "\\edgewebview\\"@)
    ||| contains_part(lower, "\\edgewebview2\\"@)
}

/// Whether an executable lives in a system directory, whatever the case of its
/// path.
pub fn is_system_path(win32_path: &str) -> (r: bool)
    ensures
        r == names_system_path(win32_path@),
{
    let lower: String = to_lowercase(win32_path);
    starts_with(lower.as_str(), "c:\\windows\\") || starts_with(
        lower.as_str(),
        "c:\\program files\\windowsapps\\",
    ) || contains(lower.as_str(), "\\edgewebview\\") || contains(
        lower.as_str(),
        "\\edgewebview2\\",
    )
}

/// The executable name at the end of an image path.
pub fn process_name(image_path: &str) -> (r: String)
    ensures
        r@ == after_last(image_path@, '\\'),
{
    last_component(image_path, '\\')
}

/// Whether a process is looked at in a poll; the lowest ids belong to the
/// system itself.
pub fn is_polled(pid: u32) -> (r: bool)
    ensures
        r == (pid >= 8),
{
    pid >= 8
}

// ---------------------------------------------------------------------------
// Processor time
// ---------------------------------------------------------------------------

/// A time in ticks, as two halves.
#[derive(Debug, Clone, Copy, PartialEq, Eq, Structural)]
pub struct FileTime {
    pub high: u32,
    pub low: u32,
}

/// The ticks of a time.
pub open spec fn ticks_of(time: FileTime) -> u64 {
    (time.high * 0x1_0000_0000 + time.low) as u64
}

/// Puts the two halves of a time together.
pub fn filetime_to_u64(time: FileTime) -> (r: u64)
    ensures
        r == ticks_of(time),
{
    time.high as u64 * 0x1_0000_0000 + time.low as u64
}

/// The processor use over an interval: never more than all of it, and nothing
/// where the interval is empty.
pub open spec fn cpu_sample(delta_cpu: nat, interval_ticks: u64) -> CpuSample {
    if interval_ticks == 0 {
        CpuSample { busy_ticks: 0, interval_ticks: 0 }
    } else if delta_cpu <= interval_ticks {
        CpuSample { busy_ticks: delta_cpu as u64, interval_ticks }
    } else {
        CpuSample { busy_ticks: interval_ticks, interval_ticks }
    }
}

/// The processor use over an interval.
pub fn compute_cpu(delta_cpu: u128, interval_ticks: u64) -> (r: CpuSample)
    ensures
        r == cpu_sample(delta_cpu as nat, interval_ticks),
{
    if interval_ticks == 0 {
        CpuSample { busy_ticks: 0, interval_ticks: 0 }
    } else if delta_cpu <= interval_ticks as u128 {
        CpuSample { busy_ticks: delta_cpu as u64, interval_ticks }
    } else {
        CpuSample { busy_ticks: interval_ticks, interval_ticks }
    }
}

// ---------------------------------------------------------------------------
// Windows
// ---------------------------------------------------------------------------

/// What is known of a top-level window.
#[derive(Debug, Clone, Copy, PartialEq, Eq, Structural)]
pub struct WindowInfo {
    /// The process that owns it; zero where that is unknown.
    pub pid: u32,
    pub visible: bool,
    /// Whether it belongs to another window.
    pub has_owner: bool,
    /// Characters in its title.
    pub title_length: i32,
    /// Its extended style bits.
    pub ex_style: u32,
}

/// The style bit of tool windows.
pub const TOOL_WINDOW: u32 = 0x80;

/// How many windows are walked at most.
pub const WINDOW_LIMIT: usize = 10_001;

/// A window by which the user would know an application: visible, titled,
/// standing for itself, and no tool window.
pub open spec fn is_app_window(w: WindowInfo) -> bool {
    w.visible && !w.has_owner && w.title_length > 0 && w.ex_style & TOOL_WINDOW == 0 && w.pid != 0
}

/// The processes that own an application window among the windows walked.
pub open spec fn windowed_pids(windows: Seq<WindowInfo>) -> Set<u32> {
    Set::new(
        |pid: u32|
            exists|i: int|
                0 <= i < windows.len() && i < WINDOW_LIMIT && is_app_window(#[trigger] windows[i])
                    && windows[i].pid == pid,
    )
}

/// The processes that own an application window.
pub fn collect_windowed_pids(windows: &Vec<WindowInfo>) -> (r: HashSet<u32>)
    ensures
        r@ == windowed_pids(windows@),
{
    let mut r: HashSet<u32> = HashSet::new();
    let mut i: usize = 0;
    while i < windows.len() && i < WINDOW_LIMIT
        invariant
            i <= windows@.len(),
            i <= WINDOW_LIMIT,
            forall|pid: u32| #[trigger]
                r@.contains(pid) <==> exists|j: int|
                    0 <= j < i && is_app_window(#[trigger] windows@[j]) && windows@[j].pid == pid,
        decreases windows@.len() - i,
    {
        let w: WindowInfo = windows[i];
        let ghost before = r@;
        if w.visible && !w.has_owner && w.title_length > 0 && w.ex_style & TOOL_WINDOW == 0
            && w.pid != 0 {
            r.insert(w.pid);
        }
        assert forall|pid: u32| #[trigger] r@.contains(pid) <==> exists|j: int|
            0 <= j < i + 1 && is_app_window(#[trigger] windows@[j]) && windows@[j].pid == pid by {
            if before.contains(pid) {
                let j = choose|j: int|
                    0 <= j < i && is_app_window(#[trigger] windows@[j]) && windows@[j].pid == pid;
                assert(is_app_window(windows@[j]));
            }
            if r@.contains(pid) && !before.contains(pid) {
                assert(is_app_window(windows@[i as int]));
            }
        }
        i = i + 1;
    }
    assert(r@ =~= windowed_pids(windows@));
    r
}

// ---------------------------------------------------------------------------
// Listing the processes
// ---------------------------------------------------------------------------

/// What to do once a buffer for process ids was filled.
#[derive(Debug, Clone, Copy, PartialEq, Eq, Structural)]
pub enum EnumStep {
    /// All ids fitted; there are this many.
    Done(usize),
    /// Some may be missing; try again with a buffer of this many ids.
    Grow(usize),
}

/// Ids that the first buffer holds.
pub const FIRST_BUFFER_LEN: usize = 1024;

/// What to do once a buffer for `len` ids was filled with `bytes_returned`
/// bytes: a full buffer is doubled. The size of the buffer in bytes has to fit
/// in 32 bits.
pub fn enum_processes(len: usize, bytes_returned: u32) -> (r: EnumStep)
    requires
        len <= 0x3fff_ffff,
    ensures
        r == (if (bytes_returned / 4) < len {
            EnumStep::Done((bytes_returned / 4) as usize)
        } else {
            EnumStep::Grow((len * 2) as usize)
        }),
{
    let count: usize = (bytes_returned / 4) as usize;
    if count < len {
        EnumStep::Done(count)
    } else {
        EnumStep::Grow(len * 2)
    }
}

// ---------------------------------------------------------------------------
// One process
// ---------------------------------------------------------------------------

/// Kernel-mode and user-mode time of a process.
#[derive(Debug, Clone, Copy, PartialEq, Eq, Structural)]
pub struct ProcessTimes {
    pub kernel: FileTime,
    pub user: FileTime,
}

/// What was read of one process.
#[derive(Debug)]
pub struct ProcessReading {
    pub pid: u32,
    /// Path of its image; its last component is the process name.
    pub image_path: String,
    /// Path of its executable, where it could be told.
    pub win32_path: Option<String>,
    /// Private working set in bytes.
    pub private_bytes: u64,
    /// Processor time since it started, where it could be told.
    pub times: Option<ProcessTimes>,
    /// Data URL of its icon, where there is one.
    pub icon_data_url: Option<String>,
    /// Monotonic time of the reading, in nanoseconds.
    pub read_at: u64,
}

/// A reading as plain mathematical values.
#[verifier::ext_equal]
pub struct ProcessReadingView {
    pub pid: u32,
    pub image_path: Seq<char>,
    pub win32_path: Option<Seq<char>>,
    pub private_bytes: u64,
    pub times: Option<ProcessTimes>,
    pub icon_data_url: Option<Seq<char>>,
    pub read_at: u64,
}

impl View for ProcessReading {
    type V = ProcessReadingView;

    open spec fn view(&self) -> ProcessReadingView {
        ProcessReadingView {
            pid: self.pid,
            image_path: self.image_path@,
            win32_path: opt_text(self.win32_path),
            private_bytes: self.private_bytes,
            times: self.times,
            icon_data_url: opt_text(self.icon_data_url),
            read_at: self.read_at,
        }
    }
}

/// The readings of a list.
pub open spec fn reading_views(list: Seq<ProcessReading>) -> Seq<ProcessReadingView> {
    Seq::new(list.len(), |i: int| list[i]@)
}

impl ProcessReadingView {
    /// The name of the process.
    pub open spec fn name(self) -> Seq<char> {
        after_last(self.image_path, '\\')
    }

    /// Its kernel-mode time in ticks; zero where it could not be told.
    pub open spec fn kernel_ticks(self) -> u64 {
        match self.times {
            Some(times) => ticks_of(times.kernel),
            None => 0,
        }
    }

    /// Its user-mode time in ticks; zero where it could not be told.
    pub open spec fn user_ticks(self) -> u64 {
        match self.times {
            Some(times) => ticks_of(times.user),
            None => 0,
        }
    }

    /// Whether it is protected, by its name or by where it lives.
    pub open spec fn is_protected(self) -> bool {
        protected_names().contains(lowered(self.name())) || (self.win32_path matches Some(path)
            && names_system_path(path))
    }
}

/// What a poll knows besides the readings.
pub struct PollContext {
    /// Names the user excluded, in lower case.
    pub excluded: Seq<Seq<char>>,
    /// Processes that own an application window.
    pub windowed: Set<u32>,
    /// Processes that are suspended.
    pub suspended: Set<u32>,
    /// Ticks since the last poll.
    pub interval_ticks: u64,
}

/// A process name is excluded: by the user, or because it is a browser.
pub open spec fn is_excluded_name(excluded: Seq<Seq<char>>, name: Seq<char>) -> bool {
    excluded.contains(lowered(name)) || browser_names().contains(lowered(name))
}

/// How far a counter moved on; not at all where it fell.
pub open spec fn gain(before: u64, now: u64) -> nat {
    if now >= before {
        (now - before) as nat
    } else {
        0
    }
}

/// The entry of a process behind a reading. One that is new counts as active
/// now and has used no processor time yet; an icon is kept once there is one.
pub open spec fn observed(
    prior: Option<ProcessEntryView>,
    reading: ProcessReadingView,
    cx: PollContext,
) -> ProcessEntryView {
    ProcessEntryView {
        pid: match prior {
            Some(e) => e.pid,
            None => reading.pid,
        },
        name: reading.name(),
        ram_bytes: reading.private_bytes,
        cpu: match prior {
            Some(e) => cpu_sample(
                gain(e.prev_kernel_time, reading.kernel_ticks()) + gain(
                    e.prev_user_time,
                    reading.user_ticks(),
                ),
                cx.interval_ticks,
            ),
            None => CpuSample { busy_ticks: 0, interval_ticks: 0 },
        },
        idle_seconds: match prior {
            Some(e) => e.idle_seconds,
            None => 0,
        },
        is_suspended: cx.suspended.contains(reading.pid),
        is_protected: reading.is_protected(),
        is_excluded: is_excluded_name(cx.excluded, reading.name()),
        has_window: cx.windowed.contains(reading.pid),
        icon_data_url: match prior {
            Some(e) => match e.icon_data_url {
                Some(url) => Some(url),
                None => reading.icon_data_url,
            },
            None => reading.icon_data_url,
        },
        last_active_at: match prior {
            Some(e) => e.last_active_at,
            None => Some(reading.read_at),
        },
        prev_kernel_time: reading.kernel_ticks(),
        prev_user_time: reading.user_ticks(),
    }
}

/// The entry of a process, where it has one.
pub open spec fn entry_at(m: Map<u32, ProcessEntryView>, pid: u32) -> Option<ProcessEntryView> {
    if m.contains_key(pid) {
        Some(m[pid])
    } else {
        None
    }
}

/// What a poll knows besides the readings.
pub open spec fn poll_context(
    s: AppStateView,
    windowed: Set<u32>,
    interval_ticks: u64,
) -> PollContext {
    PollContext {
        excluded: lowered_all(s.config.excluded_processes),
        windowed,
        suspended: s.suspended_set,
        interval_ticks,
    }
}

fn record_process(
    state: &mut AppState,
    reading: &ProcessReading,
    excluded: &Vec<String>,
    windowed: &HashSet<u32>,
    interval_ticks: u64,
)
    requires
        texts(excluded@) == lowered_all(old(state)@.config.excluded_processes),
    ensures
        final(state)@ == (AppStateView {
            process_map: final(state)@.process_map,
            ..old(state)@
        }),
        entry_views(final(state)@.process_map) == entry_views(old(state)@.process_map).insert(
            reading.pid,
            observed(
                entry_at(entry_views(old(state)@.process_map), reading.pid),
                reading@,
                poll_context(old(state)@, windowed@, interval_ticks),
            ),
        ),
{
    let ghost m = state.process_map@;
    let pid: u32 = reading.pid;
    let name: String = process_name(reading.image_path.as_str());
    let is_protected_process: bool = is_protected(name.as_str()) || match &reading.win32_path {
        Some(path) => is_system_path(path.as_str()),
        None => false,
    };
    let lower: String = to_lowercase(name.as_str());
    let is_excluded: bool = list_contains(excluded, lower.as_str()) || is_browser(name.as_str());
    let is_suspended: bool = state.suspended_set.contains(&pid);
    let has_window: bool = windowed.contains(&pid);
    let kernel_now: u64 = match reading.times {
        Some(times) => filetime_to_u64(times.kernel),
        None => 0,
    };
    let user_now: u64 = match reading.times {
        Some(times) => filetime_to_u64(times.user),
        None => 0,
    };
    let entry: ProcessEntry = match state.process_map.remove(&pid) {
        Some(prior) => {
            let delta_kernel: u64 = kernel_now.saturating_sub(prior.prev_kernel_time);
            let delta_user: u64 = user_now.saturating_sub(prior.prev_user_time);
            let cpu: CpuSample = compute_cpu(
                delta_kernel as u128 + delta_user as u128,
                interval_ticks,
            );
            let icon_data_url: Option<String> = match prior.icon_data_url {
                Some(url) => Some(url),
                None => clone_opt_text(&reading.icon_data_url),
            };
            ProcessEntry {
                pid: prior.pid,
                name,
                ram_bytes: reading.private_bytes,
                cpu,
                idle_seconds: prior.idle_seconds,
                is_suspended,
                is_protected: is_protected_process,
                is_excluded,
                has_window,
                icon_data_url,
                last_active_at: prior.last_active_at,
                prev_kernel_time: kernel_now,
                prev_user_time: user_now,
            }
        },
        None => ProcessEntry {
            pid,
            name,
            ram_bytes: reading.private_bytes,
            cpu: CpuSample { busy_ticks: 0, interval_ticks: 0 },
            idle_seconds: 0,
            is_suspended,
            is_protected: is_protected_process,
            is_excluded,
            has_window,
            icon_data_url: clone_opt_text(&reading.icon_data_url),
            last_active_at: Some(reading.read_at),
            prev_kernel_time: kernel_now,
            prev_user_time: user_now,
        },
    };
    let ghost view = entry@;
    state.process_map.insert(pid, entry);
    proof {
        assert(view == observed(
            entry_at(entry_views(m), pid),
            reading@,
            poll_context(old(state)@, windowed@, interval_ticks),
        ));
        assert(entry_views(state.process_map@) =~= entry_views(m).insert(pid, view));
    }
}

// ---------------------------------------------------------------------------
// All processes
// ---------------------------------------------------------------------------

/// The process map once all readings were recorded, one after the other.
pub open spec fn recorded(
    m: Map<u32, ProcessEntryView>,
    readings: Seq<ProcessReadingView>,
    cx: PollContext,
) -> Map<u32, ProcessEntryView>
    decreases readings.len(),
{
    if readings.len() == 0 {
        m
    } else {
        let before = recorded(m, readings.drop_last(), cx);
        let reading = readings.last();
        if reading.pid >= 8 {
            before.insert(reading.pid, observed(entry_at(before, reading.pid), reading, cx))
        } else {
            before
        }
    }
}

/// A process was read in this poll.
pub open spec fn is_seen(readings: Seq<ProcessReadingView>, pid: u32) -> bool {
    pid >= 8 && exists|i: int| 0 <= i < readings.len() && (#[trigger] readings[i]).pid == pid
}

/// The processes read in this poll.
pub open spec fn seen_pids(readings: Seq<ProcessReadingView>) -> Set<u32> {
    Set::new(|pid: u32| is_seen(readings, pid))
}

/// The latest reading of a process.
pub open spec fn latest_reading(readings: Seq<ProcessReadingView>, pid: u32) -> ProcessReadingView
    recommends
        is_seen(readings, pid),
    decreases readings.len(),
{
    if readings.len() <= 1 || readings.last().pid == pid {
        readings.last()
    } else {
        latest_reading(readings.drop_last(), pid)
    }
}

/// A process with its idle time brought up to date.
pub open spec fn with_idle_view(e: ProcessEntryView, now: u64) -> ProcessEntryView {
    if is_busy(e.cpu) {
        ProcessEntryView { last_active_at: Some(now), idle_seconds: 0, ..e }
    } else {
        ProcessEntryView {
            idle_seconds: match e.last_active_at {
                Some(t) => seconds_between(t, now),
                None => 0,
            },
            ..e
        }
    }
}

/// The processes behind a poll: those that were read, as they were observed,
/// with their idle time brought up to date.
pub open spec fn polled_processes(
    m: Map<u32, ProcessEntryView>,
    readings: Seq<ProcessReadingView>,
    cx: PollContext,
    now: u64,
) -> Map<u32, ProcessEntryView> {
    Map::new(
        |pid: u32| is_seen(readings, pid),
        |pid: u32| with_idle_view(recorded(m, readings, cx)[pid], now),
    )
}

proof fn lemma_recorded(
    m: Map<u32, ProcessEntryView>,
    readings: Seq<ProcessReadingView>,
    cx: PollContext,
)
    ensures
        forall|pid: u32| #[trigger]
            is_seen(readings, pid) ==> {
                let e = recorded(m, readings, cx)[pid];
                let reading = latest_reading(readings, pid);
                &&& recorded(m, readings, cx).contains_key(pid)
                &&& reading.pid == pid
                &&& e.name == reading.name()
                &&& e.ram_bytes == reading.private_bytes
                &&& e.is_protected == reading.is_protected()
                &&& e.is_suspended == cx.suspended.contains(pid)
                &&& e.is_excluded == is_excluded_name(cx.excluded, e.name)
                &&& e.has_window == cx.windowed.contains(pid)
                &&& (m.contains_key(pid) ==> m[pid].pid == pid) ==> e.pid == pid
            },
        forall|pid: u32|
            !is_seen(readings, pid) ==> (#[trigger] recorded(m, readings, cx).contains_key(pid)
                <==> m.contains_key(pid)) && recorded(m, readings, cx)[pid] == m[pid],
    decreases readings.len(),
{
    if readings.len() > 0 {
        let front = readings.drop_last();
        let last = readings.last();
        lemma_recorded(m, front, cx);
        let before = recorded(m, front, cx);
        let after = recorded(m, readings, cx);
        assert forall|pid: u32| #[trigger] is_seen(readings, pid) <==> (is_seen(front, pid) || (pid
            == last.pid && pid >= 8)) by {
            if is_seen(front, pid) {
                let i = choose|i: int|
                    0 <= i < front.len() && (#[trigger] front[i]).pid == pid;
                assert(readings[i].pid == pid);
            }
            if is_seen(readings, pid) {
                let i = choose|i: int|
                    0 <= i < readings.len() && (#[trigger] readings[i]).pid == pid;
                if i < front.len() {
                    assert(front[i].pid == pid);
                }
            }
            assert(readings[readings.len() - 1] == last);
        }
        assert forall|pid: u32| #[trigger] is_seen(readings, pid) implies {
            let e = after[pid];
            let reading = latest_reading(readings, pid);
            &&& after.contains_key(pid)
            &&& reading.pid == pid
            &&& e.name == reading.name()
            &&& e.ram_bytes == reading.private_bytes
            &&& e.is_protected == reading.is_protected()
            &&& e.is_suspended == cx.suspended.contains(pid)
            &&& e.is_excluded == is_excluded_name(cx.excluded, e.name)
            &&& e.has_window == cx.windowed.contains(pid)
            &&& (m.contains_key(pid) ==> m[pid].pid == pid) ==> e.pid == pid
        } by {
            if pid == last.pid {
                if is_seen(front, pid) {
                    assert(before.contains_key(pid));
                } else {
                    assert(before.contains_key(pid) <==> m.contains_key(pid));
                }
            } else {
                assert(is_seen(front, pid));
            }
        }
        assert forall|pid: u32| !is_seen(readings, pid) implies (#[trigger] after.contains_key(pid)
            <==> m.contains_key(pid)) && after[pid] == m[pid] by {
            assert(!is_seen(front, pid));
            assert(before.contains_key(pid) <==> m.contains_key(pid));
        }
    }
}

/// Behind a poll a process is flagged as excluded just where the user excluded it
/// or it is a browser, as protected just where its name or the path that was last
/// read of it says so, as suspended just where it is suspended, and as windowed
/// just where it owns an application window.
pub proof fn a_poll_applies_the_exclusions(
    m: Map<u32, ProcessEntryView>,
    readings: Seq<ProcessReadingView>,
    cx: PollContext,
    now: u64,
    pid: u32,
)
    requires
        polled_processes(m, readings, cx, now).contains_key(pid),
    ensures
        ({
            let e = polled_processes(m, readings, cx, now)[pid];
            let reading = latest_reading(readings, pid);
            &&& readings.contains(reading) && reading.pid == pid
            &&& e.name == reading.name()
            &&& e.ram_bytes == reading.private_bytes
            &&& e.is_protected == reading.is_protected()
            &&& e.is_excluded == is_excluded_name(cx.excluded, e.name)
            &&& e.is_suspended == cx.suspended.contains(pid)
            &&& e.has_window == cx.windowed.contains(pid)
        }),
{
    lemma_recorded(m, readings, cx);
    lemma_latest_is_a_reading(readings, pid);
}

/// The entry of a process that was read once is what that reading makes of the
/// entry it had before.
proof fn lemma_recorded_once(
    m: Map<u32, ProcessEntryView>,
    readings: Seq<ProcessReadingView>,
    cx: PollContext,
    i: int,
)
    requires
        0 <= i < readings.len(),
        readings[i].pid >= 8,
        forall|j: int|
            0 <= j < readings.len() && j != i ==> (#[trigger] readings[j]).pid != readings[i].pid,
    ensures
        is_seen(readings, readings[i].pid),
        recorded(m, readings, cx).contains_key(readings[i].pid),
        recorded(m, readings, cx)[readings[i].pid] == observed(
            entry_at(m, readings[i].pid),
            readings[i],
            cx,
        ),
    decreases readings.len(),
{
    let pid = readings[i].pid;
    let front = readings.drop_last();
    assert(is_seen(readings, pid));
    if i == readings.len() - 1 {
        lemma_recorded(m, front, cx);
        assert(!is_seen(front, pid)) by {
            if is_seen(front, pid) {
                let j = choose|j: int| 0 <= j < front.len() && (#[trigger] front[j]).pid == pid;
                assert(readings[j].pid == pid);
            }
        }
        assert(recorded(m, front, cx).contains_key(pid) <==> m.contains_key(pid));
    } else {
        assert forall|j: int| 0 <= j < front.len() && j != i implies (#[trigger] front[j]).pid
            != front[i].pid by {
            assert(readings[j].pid != readings[i].pid);
        }
        lemma_recorded_once(m, front, cx, i);
        assert(readings[readings.len() - 1].pid != pid);
    }
}

/// `after` holds the processes as a poll leaves them.
pub open spec fn is_polled_map(before: AppStateView, scan: PollScan, after: AppStateView) -> bool {
    entry_views(after.process_map) == polled_processes(
        entry_views(before.process_map),
        reading_views(scan.processes@),
        scan_context(before, scan),
        scan.now,
    )
}

proof fn lemma_polled_once(before: AppStateView, scan: PollScan, after: AppStateView, i: int)
    requires
        is_polled_map(before, scan, after),
        0 <= i < scan.processes@.len(),
        scan.processes@[i].pid >= 8,
        forall|j: int|
            0 <= j < scan.processes@.len() && j != i ==> (#[trigger] scan.processes@[j]).pid
                != scan.processes@[i].pid,
    ensures
        after.process_map.contains_key(scan.processes@[i].pid),
        after.process_map[scan.processes@[i].pid]@ == with_idle_view(
            observed(
                entry_at(entry_views(before.process_map), scan.processes@[i].pid),
                scan.processes@[i]@,
                scan_context(before, scan),
            ),
            scan.now,
        ),
{
    let readings = reading_views(scan.processes@);
    let pid = scan.processes@[i].pid;
    assert(readings[i] == scan.processes@[i]@);
    assert forall|j: int| 0 <= j < readings.len() && j != i implies (#[trigger] readings[j]).pid
        != readings[i].pid by {
        assert(scan.processes@[j].pid != pid);
    }
    lemma_recorded_once(
        entry_views(before.process_map),
        readings,
        scan_context(before, scan),
        i,
    );
    assert(is_seen(readings, pid));
    assert(entry_views(after.process_map).contains_key(pid));
    assert(entry_views(after.process_map)[pid] == after.process_map[pid]@);
}

/// A process that a poll read once was busy for as long as its kernel time and its
/// user time grew together since the last poll, and no longer than the interval.
/// More than half a percent of it makes the process active at that moment; else it
/// has been idle since it was last active. A process that is new has used nothing
/// yet and was active when it was read.
pub proof fn a_poll_measures_processor_use_and_idle_time(
    before: AppStateView,
    scan: PollScan,
    after: AppStateView,
    i: int,
)
    requires
        is_polled_map(before, scan, after),
        0 <= i < scan.processes@.len(),
        scan.processes@[i].pid >= 8,
        forall|j: int|
            0 <= j < scan.processes@.len() && j != i ==> (#[trigger] scan.processes@[j]).pid
                != scan.processes@[i].pid,
    ensures
        ({
            let reading = scan.processes@[i];
            let pid = reading.pid;
            let e = after.process_map[pid];
            let t = scan.interval_ticks;
            let kernel = match reading.times {
                Some(times) => times.kernel.high * 0x1_0000_0000 + times.kernel.low,
                None => 0,
            };
            let user = match reading.times {
                Some(times) => times.user.high * 0x1_0000_0000 + times.user.low,
                None => 0,
            };
            &&& after.process_map.contains_key(pid)
            &&& e.prev_kernel_time == kernel
            &&& e.prev_user_time == user
            &&& before.process_map.contains_key(pid) ==> {
                let prior = before.process_map[pid];
                let kernel_growth = if kernel > prior.prev_kernel_time {
                    kernel - prior.prev_kernel_time
                } else {
                    0
                };
                let user_growth = if user > prior.prev_user_time {
                    user - prior.prev_user_time
                } else {
                    0
                };
                let growth = kernel_growth + user_growth;
                let active = t > 0 && growth * 200 > t;
                &&& e.pid == prior.pid
                &&& t > 0 ==> e.cpu.interval_ticks == t && e.cpu.busy_ticks == (if growth < t {
                    growth
                } else {
                    t as int
                })
                &&& t == 0 ==> e.cpu.busy_ticks == 0
                &&& active ==> e.idle_seconds == 0 && e.last_active_at == Some(scan.now)
                &&& !active ==> e.last_active_at == prior.last_active_at && e.idle_seconds == (
                match prior.last_active_at {
                    Some(then) => if scan.now > then {
                        (scan.now - then) / 1_000_000_000
                    } else {
                        0
                    },
                    None => 0,
                })
            }
            &&& !before.process_map.contains_key(pid) ==> {
                &&& e.pid == pid
                &&& e.cpu.busy_ticks == 0 && e.cpu.interval_ticks == 0
                &&& e.last_active_at == Some(reading.read_at)
                &&& e.idle_seconds == (if scan.now > reading.read_at {
                    (scan.now - reading.read_at) / 1_000_000_000
                } else {
                    0
                })
            }
        }),
{
    lemma_polled_once(before, scan, after, i);
    let pid = scan.processes@[i].pid;
    let m = entry_views(before.process_map);
    if before.process_map.contains_key(pid) {
        assert(m.contains_key(pid));
        assert(m[pid] == before.process_map[pid]@);
    } else {
        assert(!m.contains_key(pid));
    }
    let e = after.process_map[pid];
    assert(e@.cpu == e.cpu && e@.idle_seconds == e.idle_seconds);
    assert(e@.last_active_at == e.last_active_at);
}

/// What a poll says of a process that it read once: its memory, its name, its icon
/// and its flags are those of the reading, of the settings and of the windows.
pub proof fn a_poll_shows_what_it_read(
    before: AppStateView,
    scan: PollScan,
    after: AppStateView,
    i: int,
)
    requires
        is_polled_map(before, scan, after),
        0 <= i < scan.processes@.len(),
        scan.processes@[i].pid >= 8,
        forall|j: int|
            0 <= j < scan.processes@.len() && j != i ==> (#[trigger] scan.processes@[j]).pid
                != scan.processes@[i].pid,
    ensures
        ({
            let reading = scan.processes@[i];
            let pid = reading.pid;
            let e = after.process_map[pid];
            let name = lowered(e.name@);
            let excluded = before.config.excluded_processes;
            let windows = scan.windows@;
            let path = reading.image_path@;
            &&& e.ram_bytes == reading.private_bytes
            &&& e.name@.len() <= path.len()
            &&& path.skip(path.len() - e.name@.len()) == e.name@ && !e.name@.contains('\\')
            &&& e.name@.len() == path.len() || path[path.len() - e.name@.len() - 1] == '\\'
            &&& e.is_suspended == before.suspended_set.contains(pid)
            &&& e.has_window <==> exists|w: int|
                0 <= w < windows.len() && w <= 10_000 && (#[trigger] windows[w]).pid == pid
                    && windows[w].visible && !windows[w].has_owner && windows[w].title_length > 0
                    && windows[w].ex_style & 0x80 == 0
            &&& e.is_excluded <==> (exists|k: int|
                0 <= k < excluded.len() && #[trigger] lowered(excluded[k]) == name) || name
                == "chrome.exe"@ || name == "msedge.exe"@ || name == "firefox.exe"@ || name
                == "brave.exe"@ || name == "opera.exe"@ || name == "vivaldi.exe"@ || name
                == "arc.exe"@
            &&& e.is_protected <==> protected_names().contains(name) || (
            reading.win32_path matches Some(path) && names_system_path(path@))
            &&& before.process_map.contains_key(pid) && before.process_map[pid].icon_data_url is Some
                ==> opt_text(e.icon_data_url) == opt_text(before.process_map[pid].icon_data_url)
            &&& !(before.process_map.contains_key(pid)
                && before.process_map[pid].icon_data_url is Some) ==> opt_text(e.icon_data_url)
                == opt_text(reading.icon_data_url)
        }),
{
    lemma_polled_once(before, scan, after, i);
    let reading = scan.processes@[i];
    let pid = reading.pid;
    let e = after.process_map[pid];
    let m = entry_views(before.process_map);
    let cx = scan_context(before, scan);
    if before.process_map.contains_key(pid) {
        assert(m.contains_key(pid));
        assert(m[pid] == before.process_map[pid]@);
    } else {
        assert(!m.contains_key(pid));
    }
    let image = reading.image_path@;
    the_last_component_follows_the_last_separator(image, '\\');
    let front = image.take(image.len() - e.name@.len());
    assert(e.name@ == after_last(image, '\\'));
    assert(image.skip(image.len() - e.name@.len()) =~= e.name@) by {
        assert(image == front + e.name@);
    }
    if front.len() > 0 {
        assert(front.last() == image[front.len() - 1]);
    }
    let windows = scan.windows@;
    assert(e.has_window == windowed_pids(windows).contains(pid));
    if e.has_window {
        let w = choose|w: int|
            0 <= w < windows.len() && w < WINDOW_LIMIT && is_app_window(#[trigger] windows[w])
                && windows[w].pid == pid;
        assert(windows[w].pid == pid && windows[w].visible);
    }
    if exists|w: int|
        0 <= w < windows.len() && w <= 10_000 && (#[trigger] windows[w]).pid == pid
            && windows[w].visible && !windows[w].has_owner && windows[w].title_length > 0
            && windows[w].ex_style & 0x80 == 0 {
        let w = choose|w: int|
            0 <= w < windows.len() && w <= 10_000 && (#[trigger] windows[w]).pid == pid
                && windows[w].visible && !windows[w].has_owner && windows[w].title_length > 0
                && windows[w].ex_style & 0x80 == 0;
        assert(is_app_window(windows[w]));
    }
    let name = lowered(e.name@);
    let excluded = before.config.excluded_processes;
    let lower = lowered_all(excluded);
    if lower.contains(name) {
        let k = choose|k: int| 0 <= k < lower.len() && lower[k] == name;
        assert(lowered(excluded[k]) == name);
    }
    if exists|k: int| 0 <= k < excluded.len() && #[trigger] lowered(excluded[k]) == name {
        let k = choose|k: int| 0 <= k < excluded.len() && #[trigger] lowered(excluded[k]) == name;
        assert(lower[k] == name);
    }
    these_are_the_browsers(name);
}

/// The browsers there are.
pub proof fn these_are_the_browsers(name: Seq<char>)
    ensures
        browser_names().contains(name) <==> name == "chrome.exe"@ || name == "msedge.exe"@ || name
            == "firefox.exe"@ || name == "brave.exe"@ || name == "opera.exe"@ || name
            == "vivaldi.exe"@ || name == "arc.exe"@,
{
    let all = browser_names();
    assert(all[0] == "chrome.exe"@ && all[1] == "msedge.exe"@ && all[2] == "firefox.exe"@);
    assert(all[3] == "brave.exe"@ && all[4] == "opera.exe"@ && all[5] == "vivaldi.exe"@);
    assert(all[6] == "arc.exe"@);
    assert(all.len() == 7);
}

/// The names under which the system itself runs, the application, and a language
/// server.
pub proof fn these_names_are_protected(lower: Seq<char>)
    ensures
        protected_names().contains(lower) <==> lower == "explorer.exe"@ || lower == "lsass.exe"@
            || lower == "winlogon.exe"@ || lower == "csrss.exe"@ || lower == "svchost.exe"@ || lower
            == "dwm.exe"@ || lower == "wininit.exe"@ || lower == "services.exe"@ || lower
            == "smss.exe"@ || lower == "registry"@ || lower == "system"@ || lower
            == "secure system"@ || lower == "gingify.exe"@ || lower
            == "language_server_windows_x64.exe"@,
{
    let all = protected_names();
    assert(all[0] == "explorer.exe"@ && all[1] == "lsass.exe"@ && all[2] == "winlogon.exe"@);
    assert(all[3] == "csrss.exe"@ && all[4] == "svchost.exe"@ && all[5] == "dwm.exe"@);
    assert(all[6] == "wininit.exe"@ && all[7] == "services.exe"@ && all[8] == "smss.exe"@);
    assert(all[9] == "registry"@ && all[10] == "system"@ && all[11] == "secure system"@);
    assert(all[12] == "gingify.exe"@ && all[13] == "language_server_windows_x64.exe"@);
    assert(all.len() == 14);
}

/// Cutting a text around a part of it.
proof fn lemma_part(text: Seq<char>, part: Seq<char>)
    ensures
        contains_part(text, part) <==> exists|front: Seq<char>, back: Seq<char>|
            text == #[trigger] (front + part + back),
        part.is_prefix_of(text) <==> exists|back: Seq<char>| text == #[trigger] (part + back),
{
    if contains_part(text, part) {
        let at = choose|at: int| occurs_at_spec(text, part, at);
        let front = text.take(at);
        let back = text.skip(at + part.len());
        assert(text =~= front + part + back);
    }
    if exists|front: Seq<char>, back: Seq<char>| text == #[trigger] (front + part + back) {
        let (front, back) = choose|front: Seq<char>, back: Seq<char>|
            text == #[trigger] (front + part + back);
        assert(text.subrange(front.len() as int, (front.len() + part.len()) as int) =~= part);
        assert(occurs_at_spec(text, part, front.len() as int));
    }
    if part.is_prefix_of(text) {
        assert(text =~= part + text.skip(part.len() as int));
    }
    if exists|back: Seq<char>| text == #[trigger] (part + back) {
        let back = choose|back: Seq<char>| text == #[trigger] (part + back);
        assert(text.subrange(0, part.len() as int) =~= part);
    }
}

/// A path is one of the system's just where it starts with a system directory or
/// leads through an embedded web view, in any case.
pub proof fn these_paths_are_the_systems(path: Seq<char>)
    ensures
        names_system_path(path) <==> {
            ||| exists|back: Seq<char>| lowered(path) == #[trigger] ("c:\\windows\\"@ + back)
            ||| exists|back: Seq<char>|
                lowered(path) == #[trigger] ("c:\\program files\\windowsapps\\"@ + back)
            ||| exists|front: Seq<char>, back: Seq<char>|
                lowered(path) == #[trigger] (front + "\\edgewebview\\"@ + back)
            ||| exists|front: Seq<char>, back: Seq<char>|
                lowered(path) == #[trigger] (front + "\\edgewebview2\\"@ + back)
        },
{
    let lower = lowered(path);
    lemma_part(lower, "c:\\windows\\"@);
    lemma_part(lower, "c:\\program files\\windowsapps\\"@);
    lemma_part(lower, "\\edgewebview\\"@);
    lemma_part(lower, "\\edgewebview2\\"@);
}

/// Behind a poll just those processes are known that it read, but for the lowest
/// ids.
pub proof fn a_poll_knows_just_what_it_read(before: AppStateView, scan: PollScan, after: AppStateView)
    requires
        is_polled_map(before, scan, after),
    ensures
        forall|pid: u32| #[trigger]
            after.process_map.contains_key(pid) <==> pid >= 8 && exists|i: int|
                0 <= i < scan.processes@.len() && (#[trigger] scan.processes@[i]).pid == pid,
{
    let readings = reading_views(scan.processes@);
    assert forall|pid: u32| #[trigger] after.process_map.contains_key(pid) <==> pid >= 8 && exists|
        i: int,
    |
        0 <= i < scan.processes@.len() && (#[trigger] scan.processes@[i]).pid == pid by {
        assert(after.process_map.contains_key(pid) <==> entry_views(
            after.process_map,
        ).contains_key(pid));
        assert(entry_views(after.process_map).contains_key(pid) <==> is_seen(readings, pid));
        if is_seen(readings, pid) {
            let i = choose|i: int| 0 <= i < readings.len() && (#[trigger] readings[i]).pid == pid;
            assert(scan.processes@[i].pid == pid);
        }
        if exists|i: int| 0 <= i < scan.processes@.len() && (#[trigger] scan.processes@[i]).pid == pid {
            let i = choose|i: int|
                0 <= i < scan.processes@.len() && (#[trigger] scan.processes@[i]).pid == pid;
            assert(readings[i].pid == pid);
        }
    }
}

proof fn lemma_latest_is_a_reading(readings: Seq<ProcessReadingView>, pid: u32)
    requires
        readings.len() > 0,
    ensures
        readings.contains(latest_reading(readings, pid)),
    decreases readings.len(),
{
    if readings.len() > 1 && readings.last().pid != pid {
        let front = readings.drop_last();
        lemma_latest_is_a_reading(front, pid);
        let i = choose|i: int|
            0 <= i < front.len() && front[i] == latest_reading(readings, pid);
        assert(readings[i] == latest_reading(readings, pid));
    } else {
        assert(readings[readings.len() - 1] == latest_reading(readings, pid));
    }
}

fn record_all(
    state: &mut AppState,
    readings: &Vec<ProcessReading>,
    windowed: &HashSet<u32>,
    interval_ticks: u64,
) -> (seen: HashSet<u32>)
    ensures
        final(state)@ == (AppStateView {
            process_map: final(state)@.process_map,
            ..old(state)@
        }),
        entry_views(final(state)@.process_map) == recorded(
            entry_views(old(state)@.process_map),
            reading_views(readings@),
            poll_context(old(state)@, windowed@, interval_ticks),
        ),
        seen@ == seen_pids(reading_views(readings@)),
{
    let ghost before = state@;
    let ghost m = entry_views(before.process_map);
    let ghost cx = poll_context(before, windowed@, interval_ticks);
    let ghost all = reading_views(readings@);
    let excluded: Vec<String> = lowercase_all(&state.config.excluded_processes);
    let mut seen: HashSet<u32> = HashSet::new();
    let mut i: usize = 0;
    assert(all.take(0) =~= Seq::empty());
    while i < readings.len()
        invariant
            i <= readings@.len(),
            all == reading_views(readings@),
            m == entry_views(before.process_map),
            cx == poll_context(before, windowed@, interval_ticks),
            texts(excluded@) == lowered_all(before.config.excluded_processes),
            state@ == (AppStateView { process_map: state@.process_map, ..before }),
            entry_views(state@.process_map) == recorded(m, all.take(i as int), cx),
            forall|pid: u32| #[trigger]
                seen@.contains(pid) <==> pid >= 8 && exists|j: int|
                    0 <= j < i && (#[trigger] all[j]).pid == pid,
        decreases readings@.len() - i,
    {
        let reading: &ProcessReading = &readings[i];
        let ghost seen_before = seen@;
        assert(all.take(i + 1).drop_last() =~= all.take(i as int));
        assert(all.take(i + 1).last() == reading@);
        assert(all[i as int] == reading@);
        if is_polled(reading.pid) {
            record_process(state, reading, &excluded, windowed, interval_ticks);
            seen.insert(reading.pid);
        }
        assert forall|pid: u32| #[trigger] seen@.contains(pid) <==> pid >= 8 && exists|j: int|
            0 <= j < i + 1 && (#[trigger] all[j]).pid == pid by {
            if seen_before.contains(pid) {
                let j = choose|j: int| 0 <= j < i && (#[trigger] all[j]).pid == pid;
                assert(all[j].pid == pid);
            }
        }
        i = i + 1;
    }
    assert(all.take(i as int) =~= all);
    assert(seen@ =~= seen_pids(all)) by {
        assert forall|pid: u32| seen@.contains(pid) <==> seen_pids(all).contains(pid) by {
            assert(seen_pids(all).contains(pid) <==> is_seen(all, pid));
        }
    }
    seen
}

fn drop_unseen(state: &mut AppState, seen: &HashSet<u32>)
    ensures
        final(state)@ == (AppStateView {
            process_map: old(state)@.process_map.restrict(seen@),
            ..old(state)@
        }),
{
    let pids: Vec<u32> = all_pids(&state.process_map);
    let ghost before = state@;
    let ghost m = before.process_map;
    let mut i: usize = 0;
    while i < pids.len()
        invariant
            i <= pids@.len(),
            m == before.process_map,
            enumerates(pids@, m, |e: ProcessEntry| true),
            state@ == (AppStateView { process_map: state@.process_map, ..before }),
            forall|pid: u32| #[trigger]
                state@.process_map.contains_key(pid) <==> (m.contains_key(pid) && (seen@.contains(
                    pid,
                ) || !pids@.take(i as int).contains(pid))),
            forall|pid: u32|
                state@.process_map.contains_key(pid) ==> #[trigger] state@.process_map[pid] == m[pid],
        decreases pids@.len() - i,
    {
        let pid: u32 = pids[i];
        let ghost done = pids@.take(i as int);
        assert(pids@.take(i + 1) =~= done.push(pid));
        assert(forall|k: u32| #[trigger]
            done.push(pid).contains(k) <==> (done.contains(k) || k == pid)) by {
            broadcast use vstd::seq_lib::group_seq_properties;
        }
        if !seen.contains(&pid) {
            state.process_map.remove(&pid);
        }
        i = i + 1;
    }
    proof {
        assert(pids@.take(i as int) =~= pids@);
        assert forall|pid: u32| m.contains_key(pid) implies #[trigger] pids@.contains(pid) by {}
        assert(state@.process_map =~= m.restrict(seen@)) by {
            assert forall|pid: u32| #[trigger]
                state@.process_map.contains_key(pid) <==> m.restrict(seen@).contains_key(pid) by {
                if m.contains_key(pid) {
                    assert(pids@.contains(pid));
                }
            }
        }
    }
}

fn observe_processes(
    state: &mut AppState,
    readings: &Vec<ProcessReading>,
    windowed: &HashSet<u32>,
    interval_ticks: u64,
    now: u64,
)
    ensures
        final(state)@ == (AppStateView {
            process_map: final(state)@.process_map,
            ..old(state)@
        }),
        entry_views(final(state)@.process_map) == polled_processes(
            entry_views(old(state)@.process_map),
            reading_views(readings@),
            poll_context(old(state)@, windowed@, interval_ticks),
            now,
        ),
        final(state)@.process_map.dom() == seen_pids(reading_views(readings@)),
        old(state)@.consistent() ==> final(state)@.consistent(),
{
    let ghost before = state@;
    let ghost m = entry_views(before.process_map);
    let ghost all = reading_views(readings@);
    let ghost cx = poll_context(before, windowed@, interval_ticks);
    let seen: HashSet<u32> = record_all(state, readings, windowed, interval_ticks);
    let ghost noted = state@.process_map;
    drop_unseen(state, &seen);
    update_idle_times(state, now);
    proof {
        lemma_recorded(m, all, cx);
        let after = state@.process_map;
        let rec = recorded(m, all, cx);
        assert(after == with_idle_times(noted.restrict(seen@), now));
        assert forall|pid: u32| #[trigger] after.contains_key(pid) <==> is_seen(all, pid) by {
            if is_seen(all, pid) {
                assert(rec.contains_key(pid));
                assert(entry_views(noted).contains_key(pid));
                assert(seen_pids(all).contains(pid));
            }
            if after.contains_key(pid) {
                assert(seen_pids(all).contains(pid));
            }
        }
        assert forall|pid: u32| #[trigger] after.contains_key(pid) implies after[pid]@
            == with_idle_view(rec[pid], now) by {
            assert(entry_views(noted).contains_key(pid));
            assert(noted[pid]@ == rec[pid]);
            assert(after[pid] == with_idle_time(noted[pid], now));
            assert(after[pid]@ =~= with_idle_view(noted[pid]@, now));
        }
        assert(entry_views(after) =~= polled_processes(m, all, cx, now)) by {
            assert forall|pid: u32| #[trigger]
                entry_views(after).contains_key(pid) <==> polled_processes(
                    m,
                    all,
                    cx,
                    now,
                ).contains_key(pid) by {
                assert(after.contains_key(pid) <==> is_seen(all, pid));
            }
            assert forall|pid: u32| #[trigger]
                entry_views(after).contains_key(pid) implies entry_views(after)[pid]
                == polled_processes(m, all, cx, now)[pid] by {
                assert(after.contains_key(pid));
            }
        }
        assert(after.dom() =~= seen_pids(all)) by {
            assert forall|pid: u32| after.dom().contains(pid) <==> seen_pids(all).contains(pid) by {
                assert(after.contains_key(pid) <==> is_seen(all, pid));
            }
        }
        if before.consistent() {
            assert forall|pid: u32| #[trigger] after.contains_key(pid) implies after[pid].pid == pid
                && after[pid].is_suspended == state@.suspended_set.contains(pid) by {
                assert(is_seen(all, pid));
                assert(m.contains_key(pid) ==> before.process_map.contains_key(pid));
                assert(after[pid]@ == with_idle_view(rec[pid], now));
            }
        }
    }
}

// ---------------------------------------------------------------------------
// Memory figures
// ---------------------------------------------------------------------------

/// What the system tells about its memory.
#[derive(Debug, Clone, Copy, PartialEq, Eq, Structural)]
pub struct MemoryReading {
    /// Physical memory in bytes.
    pub total_phys: u64,
    /// Physical memory available, in bytes.
    pub avail_phys: u64,
    /// Load as a percentage.
    pub load: u32,
}

/// Bytes in a megabyte.
pub const MB: u64 = 1_048_576;

/// The memory figures behind a reading; the old ones where it failed.
pub open spec fn measured(before: RamStats, reading: Option<MemoryReading>) -> RamStats {
    match reading {
        Some(m) => {
            let total_mb = m.total_phys / MB;
            let available_mb = m.avail_phys / MB;
            RamStats {
                total_mb,
                used_mb: gain(available_mb, total_mb) as u64,
                available_mb,
                pressure_pct: m.load,
                pressure_level: pressure_level(m.load),
            }
        },
        None => before,
    }
}

/// Brings the memory figures up to date; keeps them where the reading failed.
pub fn update_ram_stats(state: &mut AppState, reading: Option<MemoryReading>)
    ensures
        final(state)@ == (AppStateView {
            ram_stats: measured(old(state)@.ram_stats, reading),
            ..old(state)@
        }),
{
    if let Some(m) = reading {
        let total_mb: u64 = m.total_phys / MB;
        let available_mb: u64 = m.avail_phys / MB;
        state.ram_stats =
        RamStats {
            total_mb,
            used_mb: total_mb.saturating_sub(available_mb),
            available_mb,
            pressure_pct: m.load,
            pressure_level: PressureLevel::from_pct(m.load),
        };
    }
}

// ---------------------------------------------------------------------------
// What follows
// ---------------------------------------------------------------------------

/// Nanoseconds that pass at least between two automatic trims.
pub const AUTO_TRIM_COOLDOWN: u64 = 60_000_000_000;

/// An automatic trim is due: it is switched on, the pressure reached the
/// threshold, and the last one is long enough ago.
pub open spec fn auto_trim_due(
    config: UserConfigView,
    pressure_pct: u32,
    last: Option<u64>,
    now: u64,
) -> bool {
    &&& config.auto_trim_enabled
    &&& pressure_pct >= config.auto_trim_threshold_pct
    &&& match last {
        Some(t) => now - t >= AUTO_TRIM_COOLDOWN,
        None => true,
    }
}

/// An automatic trim is due just where the user wants them, the pressure has
/// reached the threshold that the user set, and there was none in the last minute.
pub proof fn the_user_decides_on_automatic_trims(
    config: UserConfigView,
    pressure_pct: u32,
    last: Option<u64>,
    now: u64,
)
    ensures
        auto_trim_due(config, pressure_pct, last, now) <==> config.auto_trim_enabled && pressure_pct
            >= config.auto_trim_threshold_pct && (last matches Some(then) ==> now >= then
            + 60_000_000_000),
{
}

/// An automatic trim goes by the idle time of the profile: a quarter of an hour at
/// work, five minutes in Gaming mode, ten in Focus, and what the settings say under
/// a user-defined profile.
pub proof fn automatic_trims_go_by_the_profile(s: AppStateView)
    ensures
        s.active_profile is Work ==> auto_trim_idle_secs(s) == 15 * 60,
        s.active_profile is Gaming ==> auto_trim_idle_secs(s) == 5 * 60,
        s.active_profile is Focus ==> auto_trim_idle_secs(s) == 10 * 60,
        s.active_profile is Custom ==> auto_trim_idle_secs(s) == s.config.idle_threshold_secs,
{
}

/// The memory figures are those of the reading, in whole megabytes, and their level
/// is that of the load; where nothing could be read they stay.
pub proof fn memory_figures_follow_the_reading(before: RamStats, reading: MemoryReading)
    ensures
        ({
            let r = measured(before, Some(reading));
            &&& r.total_mb == reading.total_phys / 1_048_576
            &&& r.available_mb == reading.avail_phys / 1_048_576
            &&& reading.avail_phys <= reading.total_phys ==> r.used_mb + r.available_mb == r.total_mb
            &&& r.total_mb < r.available_mb ==> r.used_mb == 0
            &&& r.pressure_pct == reading.load
            &&& r.pressure_level is Low <==> reading.load < 70
            &&& r.pressure_level is Medium <==> 70 <= reading.load < 85
            &&& r.pressure_level is High <==> 85 <= reading.load < 95
            &&& r.pressure_level is Critical <==> reading.load >= 95
        }),
        measured(before, None) == before,
{
}

/// The user is warned just where warnings are wanted and the load is 85 percent or
/// more; from 95 percent on the warning is a critical one.
pub proof fn a_high_load_is_warned_of(allowed: bool, before: RamStats, reading: MemoryReading)
    ensures
        ({
            let r = high_ram_warning(allowed, measured(before, Some(reading)));
            &&& r is Some <==> allowed && reading.load >= 85
            &&& r matches Some(warning) ==> warning.pressure_pct == reading.load
                && warning.is_critical == (reading.load >= 95)
        }),
{
}

/// What decides over an automatic trim in one poll.
pub struct PollMoment {
    pub config: UserConfigView,
    pub pressure_pct: u32,
    pub now: u64,
}

/// When the last automatic trim was due, behind a series of polls.
pub open spec fn last_auto_trim(start: Option<u64>, polls: Seq<PollMoment>) -> Option<u64>
    decreases polls.len(),
{
    if polls.len() == 0 {
        start
    } else {
        let before = last_auto_trim(start, polls.drop_last());
        let poll = polls.last();
        if auto_trim_due(poll.config, poll.pressure_pct, before, poll.now) {
            Some(poll.now)
        } else {
            before
        }
    }
}

/// The `i`th poll of a series calls for an automatic trim.
pub open spec fn trims_at(start: Option<u64>, polls: Seq<PollMoment>, i: int) -> bool {
    auto_trim_due(
        polls[i].config,
        polls[i].pressure_pct,
        last_auto_trim(start, polls.take(i)),
        polls[i].now,
    )
}

proof fn lemma_trimmed_since(start: Option<u64>, polls: Seq<PollMoment>, i: int, k: int)
    requires
        0 <= i < k <= polls.len(),
        trims_at(start, polls, i),
    ensures
        last_auto_trim(start, polls.take(k)) matches Some(t) && t >= polls[i].now,
    decreases k,
{
    assert(polls.take(k).drop_last() =~= polls.take(k - 1));
    if i < k - 1 {
        lemma_trimmed_since(start, polls, i, k - 1);
    }
}

/// Whatever the settings and the pressure are from poll to poll, any two
/// automatic trims lie at least a minute apart.
pub proof fn auto_trims_are_a_minute_apart(
    start: Option<u64>,
    polls: Seq<PollMoment>,
    i: int,
    j: int,
)
    requires
        0 <= i < j < polls.len(),
        trims_at(start, polls, i),
        trims_at(start, polls, j),
    ensures
        polls[j].now >= polls[i].now + 60 * NANOS_PER_SEC,
{
    lemma_trimmed_since(start, polls, i, j);
}

/// How long a process has to be idle for an automatic trim: what the profile
/// says, and under a user-defined one what the settings say.
pub open spec fn auto_trim_idle_secs(s: AppStateView) -> u64 {
    match s.active_profile {
        ProfileView::Custom(_) => s.config.idle_threshold_secs,
        profile => profile.idle_threshold_secs(),
    }
}

/// A warning about memory pressure.
#[derive(Debug, Clone, Copy, PartialEq, Eq, Structural)]
pub struct HighRam {
    pub pressure_pct: u32,
    pub is_critical: bool,
}

/// The warning that memory figures call for, where warnings are allowed.
pub open spec fn high_ram_warning(allowed: bool, stats: RamStats) -> Option<HighRam> {
    if allowed && (stats.pressure_level is High || stats.pressure_level is Critical) {
        Some(
            HighRam {
                pressure_pct: stats.pressure_pct,
                is_critical: stats.pressure_level is Critical,
            },
        )
    } else {
        None
    }
}

/// What one poll has learnt.
#[derive(Debug)]
pub struct PollScan {
    /// The processes that could be read.
    pub processes: Vec<ProcessReading>,
    /// The top-level windows, in the order in which they were walked.
    pub windows: Vec<WindowInfo>,
    /// The memory of the system, where it could be read.
    pub memory: Option<MemoryReading>,
    /// Ticks since the last poll.
    pub interval_ticks: u64,
    /// Monotonic time at the end of the poll, in nanoseconds.
    pub now: u64,
}

/// What is to be done behind a poll.
#[derive(Debug, Clone, Copy, PartialEq, Eq)]
pub struct PollOutcome {
    /// Trim the processes that were idle for so many seconds.
    pub auto_trim: Option<u64>,
    /// Tell the user what that trim freed.
    pub announce_trim: bool,
    /// Warn about memory pressure.
    pub high_ram: Option<HighRam>,
    /// The memory figures to show.
    pub ram_stats: RamStats,
}

/// The processes that own an application window, as a poll found them.
pub open spec fn scan_context(s: AppStateView, scan: PollScan) -> PollContext {
    poll_context(s, windowed_pids(scan.windows@), scan.interval_ticks)
}

/// Takes in what a poll has learnt: the processes that were read replace those
/// that were known, idle times, bloat services and memory figures are brought
/// up to date, and it is decided whether to trim and whether to warn.
pub fn poll_cycle(state: &mut AppState, scan: &PollScan) -> (r: PollOutcome)
    ensures
        entry_views(final(state)@.process_map) == polled_processes(
            entry_views(old(state)@.process_map),
            reading_views(scan.processes@),
            scan_context(old(state)@, *scan),
            scan.now,
        ),
        final(state)@.process_map.dom() == seen_pids(reading_views(scan.processes@)),
        final(state)@ == (AppStateView {
            process_map: final(state)@.process_map,
            bloat_list: scanned(final(state)@),
            ram_stats: measured(old(state)@.ram_stats, scan.memory),
            last_auto_trim_at: if r.auto_trim is Some {
                Some(scan.now)
            } else {
                old(state)@.last_auto_trim_at
            },
            ..old(state)@
        }),
        r.auto_trim == (if auto_trim_due(
            old(state)@.config,
            final(state)@.ram_stats.pressure_pct,
            old(state)@.last_auto_trim_at,
            scan.now,
        ) {
            Some(auto_trim_idle_secs(old(state)@))
        } else {
            None
        }),
        r.announce_trim == (r.auto_trim is Some && old(state)@.config.notifications_enabled),
        r.high_ram == high_ram_warning(
            old(state)@.config.notifications_enabled,
            final(state)@.ram_stats,
        ),
        r.ram_stats == final(state)@.ram_stats,
        r.auto_trim is Some <==> old(state)@.config.auto_trim_enabled
            && final(state)@.ram_stats.pressure_pct >= old(state)@.config.auto_trim_threshold_pct && (
        old(state)@.last_auto_trim_at matches Some(then) ==> scan.now >= then + 60_000_000_000),
        is_polled_map(old(state)@, *scan, final(state)@),
        scan.memory matches Some(m) ==> final(state)@.ram_stats.pressure_pct == m.load && (
        r.high_ram is Some <==> old(state)@.config.notifications_enabled && m.load >= 85),
        scan.memory is None ==> final(state)@.ram_stats == old(state)@.ram_stats,
        old(state)@.consistent() ==> final(state)@.consistent(),
{
    let windowed: HashSet<u32> = collect_windowed_pids(&scan.windows);
    observe_processes(state, &scan.processes, &windowed, scan.interval_ticks, scan.now);
    let ghost mid = state@;
    state.bloat_list = scan_bloat(state);
    update_ram_stats(state, scan.memory);
    let cooled_down: bool = match state.last_auto_trim_at {
        Some(t) => scan.now >= t && scan.now - t >= AUTO_TRIM_COOLDOWN,
        None => true,
    };
    let pressure_pct: u32 = state.ram_stats.pressure_pct;
    let mut auto_trim: Option<u64> = None;
    if state.config.auto_trim_enabled && pressure_pct >= state.config.auto_trim_threshold_pct as u32
        && cooled_down {
        state.last_auto_trim_at = Some(scan.now);
        auto_trim =
        Some(
            match &state.active_profile {
                Profile::Custom(_) => state.config.idle_threshold_secs,
                _ => state.active_profile.idle_threshold_secs(),
            },
        );
    }
    let is_critical: bool = match state.ram_stats.pressure_level {
        PressureLevel::Critical => true,
        _ => false,
    };
    let is_high: bool = match state.ram_stats.pressure_level {
        PressureLevel::High => true,
        _ => false,
    };
    let mut high_ram: Option<HighRam> = None;
    if state.config.notifications_enabled && (is_high || is_critical) {
        high_ram = Some(HighRam { pressure_pct, is_critical });
    }
    assert(scanned(mid) =~= scanned(state@)) by {
        assert forall|i: int| 0 <= i < known_bloat().len() implies #[trigger] scanned(mid)[i]
            == scanned(state@)[i] by {
            assert(bloat_entry(known_bloat()[i], mid) == bloat_entry(known_bloat()[i], state@));
        }
    }
    assert(bloat_views(state.bloat_list@) == scanned(mid));
    let announce_trim: bool = auto_trim.is_some() && state.config.notifications_enabled;
    PollOutcome { auto_trim, announce_trim, high_ram, ram_stats: state.ram_stats }
}

} // verus!
