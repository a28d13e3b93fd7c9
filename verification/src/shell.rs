//! The application around the engine: start-up, tray, windows, logs, shutdown.

use std::collections::HashSet;

use vstd::prelude::*;
use vstd::string::*;

use crate::state::app_state::{
    event_views, initial_state, AppState, AppStateView, Profile, ProfileView, TrimEvent,
};
use crate::state::config::{default_config, UserConfig};
use crate::text::{concat3, decimal, decimal_text, same_text};

verus! {

broadcast use vstd::std_specs::hash::group_hash_axioms;

// ---------------------------------------------------------------------------
// Logs
// ---------------------------------------------------------------------------

/// Bytes that a log may hold before it is put aside.
pub const LOG_LIMIT: u64 = 5_242_880;

/// Whether a log of that size is put aside and a new one started.
pub fn needs_rotation(log_bytes: u64) -> (r: bool)
    ensures
        r == (log_bytes > 5 * 1024 * 1024),
{
    log_bytes > LOG_LIMIT
}

/// The line that a crash leaves behind.
pub fn crash_line(unix_secs: u64, message: &str) -> (r: String)
    ensures
        r@ == "["@ + decimal(unix_secs as nat) + "] PANIC: "@ + message@ + "\n"@,
{
    let mut r: String = concat3("[", decimal_text(unix_secs).as_str(), "] PANIC: ");
    r.append(message);
    r.append("\n");
    r
}

// ---------------------------------------------------------------------------
// Start-up
// ---------------------------------------------------------------------------

/// What the application starts with.
#[derive(Debug)]
pub struct Startup {
    pub state: AppState,
    /// An earlier session left processes suspended; they are to be resumed.
    pub resume_orphans: bool,
    /// The onboarding is to be shown.
    pub show_onboarding: bool,
}

/// The state to start with. Settings that could not be loaded are replaced by
/// the defaults; processes that an earlier session left suspended count as
/// suspended.
pub fn start(
    config: Result<UserConfig, String>,
    trim_history: Vec<TrimEvent>,
    orphans: HashSet<u32>,
    suspender_available: bool,
) -> (r: Startup)
    ensures
        r.state@ == (AppStateView {
            trim_history: event_views(trim_history@),
            suspended_set: orphans@,
            suspender_available,
            ..initial_state(
                match config {
                    Ok(c) => c@,
                    Err(_) => default_config(),
                },
            )
        }),
        r.state@.consistent(),
        r.resume_orphans == (orphans@.len() > 0),
        r.show_onboarding == !r.state@.config.first_launch_complete,
{
    let config: UserConfig = match config {
        Ok(c) => c,
        Err(_) => UserConfig::default(),
    };
    let mut state: AppState = AppState::new(config);
    let resume_orphans: bool = orphans.len() > 0;
    let show_onboarding: bool = !state.config.first_launch_complete;
    state.trim_history = trim_history;
    state.suspended_set = orphans;
    state.suspender_available = suspender_available;
    Startup { state, resume_orphans, show_onboarding }
}

// ---------------------------------------------------------------------------
// The tray menu
// ---------------------------------------------------------------------------

/// An entry of the tray menu.
#[derive(Debug, Clone, Copy, PartialEq, Eq)]
pub enum MenuEntry {
    /// Its id and its label.
    Plain(&'static str, &'static str),
    /// Its id, its label and whether it is checked.
    Check(&'static str, &'static str, bool),
    Separator,
}

/// An entry as plain mathematical values.
#[verifier::ext_equal]
pub enum MenuEntryView {
    Plain(Seq<char>, Seq<char>),
    Check(Seq<char>, Seq<char>, bool),
    Separator,
}

impl View for MenuEntry {
    type V = MenuEntryView;

    open spec fn view(&self) -> MenuEntryView {
        match self {
            MenuEntry::Plain(id, label) => MenuEntryView::Plain(id@, label@),
            MenuEntry::Check(id, label, checked) => MenuEntryView::Check(id@, label@, *checked),
            MenuEntry::Separator => MenuEntryView::Separator,
        }
    }
}

/// The entries of a menu.
pub open spec fn menu_views(list: Seq<MenuEntry>) -> Seq<MenuEntryView> {
    Seq::new(list.len(), |i: int| list[i]@)
}

/// The tray menu under a profile.
pub open spec fn menu_under(profile: ProfileView) -> Seq<MenuEntryView> {
    seq![
        MenuEntryView::Plain("free_now"@, "Free RAM Now"@),
        MenuEntryView::Separator,
        MenuEntryView::Check("profile_work"@, "Work"@, profile == ProfileView::Work),
        MenuEntryView::Check("profile_gaming"@, "Gaming"@, profile == ProfileView::Gaming),
        MenuEntryView::Check("profile_focus"@, "Focus"@, profile == ProfileView::Focus),
        MenuEntryView::Separator,
        MenuEntryView::Plain("open_detail"@, "Open Detail Window"@),
        MenuEntryView::Plain("settings"@, "Settings"@),
        MenuEntryView::Separator,
        MenuEntryView::Plain("check_updates"@, "Check for Updates"@),
        MenuEntryView::Separator,
        MenuEntryView::Plain("quit"@, "Quit Gingify"@),
    ]
}

/// Which of the profile entries are checked.
#[derive(Debug, Clone, Copy, PartialEq, Eq, Structural)]
pub struct ProfileChecks {
    pub work: bool,
    pub gaming: bool,
    pub focus: bool,
}

/// Works out which of the profile entries are checked; none under a
/// user-defined profile.
pub fn profile_checks(profile: &Profile) -> (r: ProfileChecks)
    ensures
        r.work == (profile@ == ProfileView::Work),
        r.gaming == (profile@ == ProfileView::Gaming),
        r.focus == (profile@ == ProfileView::Focus),
{
    let work: bool = match profile {
        Profile::Work => true,
        _ => false,
    };
    ProfileChecks { work, gaming: profile.is_gaming(), focus: profile.is_focus() }
}

/// The tray menu, from top to bottom.
pub fn tray_menu(profile: &Profile) -> (r: Vec<MenuEntry>)
    ensures
        menu_views(r@) == menu_under(profile@),
{
    let checks: ProfileChecks = profile_checks(profile);
    let mut r: Vec<MenuEntry> = Vec::new();
    r.push(MenuEntry::Plain("free_now", "Free RAM Now"));
    r.push(MenuEntry::Separator);
    r.push(MenuEntry::Check("profile_work", "Work", checks.work));
    r.push(MenuEntry::Check("profile_gaming", "Gaming", checks.gaming));
    r.push(MenuEntry::Check("profile_focus", "Focus", checks.focus));
    r.push(MenuEntry::Separator);
    r.push(MenuEntry::Plain("open_detail", "Open Detail Window"));
    r.push(MenuEntry::Plain("settings", "Settings"));
    r.push(MenuEntry::Separator);
    r.push(MenuEntry::Plain("check_updates", "Check for Updates"));
    r.push(MenuEntry::Separator);
    r.push(MenuEntry::Plain("quit", "Quit Gingify"));
    assert(menu_views(r@) =~= menu_under(profile@));
    r
}

/// Seconds a process has to be idle to be trimmed from the tray.
pub const FREE_RAM_IDLE_SECS: u64 = 30;

/// What an entry of the tray menu does.
#[derive(Debug)]
pub enum TrayCommand {
    /// Trim the processes that were idle for a while.
    FreeRam,
    /// Switch to this profile and check its entry.
    SwitchTo(Profile),
    /// Show the detail window.
    OpenDetail,
    /// Show the detail window with the settings.
    OpenSettings,
    /// Check for an update.
    CheckUpdates,
    /// Shut down.
    Quit,
    /// Nothing.
    Ignore,
}

/// What an entry does, as plain mathematical values.
#[verifier::ext_equal]
pub enum TrayCommandView {
    FreeRam,
    SwitchTo(ProfileView),
    OpenDetail,
    OpenSettings,
    CheckUpdates,
    Quit,
    Ignore,
}

impl View for TrayCommand {
    type V = TrayCommandView;

    open spec fn view(&self) -> TrayCommandView {
        match self {
            TrayCommand::FreeRam => TrayCommandView::FreeRam,
            TrayCommand::SwitchTo(profile) => TrayCommandView::SwitchTo(profile@),
            TrayCommand::OpenDetail => TrayCommandView::OpenDetail,
            TrayCommand::OpenSettings => TrayCommandView::OpenSettings,
            TrayCommand::CheckUpdates => TrayCommandView::CheckUpdates,
            TrayCommand::Quit => TrayCommandView::Quit,
            TrayCommand::Ignore => TrayCommandView::Ignore,
        }
    }
}

/// What the entry with an id does.
pub open spec fn command_of(id: Seq<char>) -> TrayCommandView {
    if id == "free_now"@ {
        TrayCommandView::FreeRam
    } else if id == "profile_work"@ {
        TrayCommandView::SwitchTo(ProfileView::Work)
    } else if id == "profile_gaming"@ {
        TrayCommandView::SwitchTo(ProfileView::Gaming)
    } else if id == "profile_focus"@ {
        TrayCommandView::SwitchTo(ProfileView::Focus)
    } else if id == "open_detail"@ {
        TrayCommandView::OpenDetail
    } else if id == "settings"@ {
        TrayCommandView::OpenSettings
    } else if id == "check_updates"@ {
        TrayCommandView::CheckUpdates
    } else if id == "quit"@ {
        TrayCommandView::Quit
    } else {
        TrayCommandView::Ignore
    }
}

/// What the entry with an id does.
pub fn tray_command(id: &str) -> (r: TrayCommand)
    ensures
        r@ == command_of(id@),
{
    if same_text(id, "free_now") {
        TrayCommand::FreeRam
    } else if same_text(id, "profile_work") {
        TrayCommand::SwitchTo(Profile::Work)
    } else if same_text(id, "profile_gaming") {
        TrayCommand::SwitchTo(Profile::Gaming)
    } else if same_text(id, "profile_focus") {
        TrayCommand::SwitchTo(Profile::Focus)
    } else if same_text(id, "open_detail") {
        TrayCommand::OpenDetail
    } else if same_text(id, "settings") {
        TrayCommand::OpenSettings
    } else if same_text(id, "check_updates") {
        TrayCommand::CheckUpdates
    } else if same_text(id, "quit") {
        TrayCommand::Quit
    } else {
        TrayCommand::Ignore
    }
}

/// Every entry of the menu does something.
pub proof fn every_menu_entry_does_something(profile: ProfileView, i: int)
    requires
        0 <= i < menu_under(profile).len(),
    ensures
        match menu_under(profile)[i] {
            MenuEntryView::Plain(id, _) => !(command_of(id) is Ignore),
            MenuEntryView::Check(id, _, _) => !(command_of(id) is Ignore),
            MenuEntryView::Separator => true,
        },
{
}

/// What the entries do: each profile entry switches to its profile and is checked
/// just where that profile is active; the others free memory, open a window, look for
/// updates or quit. Whatever is not in the menu does nothing.
pub proof fn menu_entries_do_what_they_say(profile: ProfileView, id: Seq<char>)
    ensures
        forall|i: int|
            0 <= i < menu_under(profile).len() ==> ((
            #[trigger] menu_under(profile)[i]) matches MenuEntryView::Check(id, label, checked) ==> (
            command_of(id) matches TrayCommandView::SwitchTo(target) && (checked <==> target
                == profile))),
        menu_under(profile).len() == 12,
        menu_under(profile)[0] == MenuEntryView::Plain("free_now"@, "Free RAM Now"@),
        menu_under(profile)[2] is Check && menu_under(profile)[3] is Check && menu_under(
            profile,
        )[4] is Check,
        menu_under(profile)[6] == MenuEntryView::Plain("open_detail"@, "Open Detail Window"@),
        menu_under(profile)[7] == MenuEntryView::Plain("settings"@, "Settings"@),
        menu_under(profile)[9] == MenuEntryView::Plain("check_updates"@, "Check for Updates"@),
        menu_under(profile)[11] == MenuEntryView::Plain("quit"@, "Quit Gingify"@),
        command_of("free_now"@) is FreeRam,
        command_of("profile_work"@) == TrayCommandView::SwitchTo(ProfileView::Work),
        command_of("profile_gaming"@) == TrayCommandView::SwitchTo(ProfileView::Gaming),
        command_of("profile_focus"@) == TrayCommandView::SwitchTo(ProfileView::Focus),
        command_of("open_detail"@) is OpenDetail,
        command_of("settings"@) is OpenSettings,
        command_of("check_updates"@) is CheckUpdates,
        command_of("quit"@) is Quit,
        command_of(id) is Ignore <==> id != "free_now"@ && id != "profile_work"@ && id
            != "profile_gaming"@ && id != "profile_focus"@ && id != "open_detail"@ && id
            != "settings"@ && id != "check_updates"@ && id != "quit"@,
{
    reveal_strlit("free_now");
    reveal_strlit("profile_work");
    reveal_strlit("profile_gaming");
    reveal_strlit("profile_focus");
    reveal_strlit("open_detail");
    reveal_strlit("settings");
    reveal_strlit("check_updates");
    reveal_strlit("quit");
    assert("free_now"@.len() == 8 && "settings"@.len() == 8);
    assert("free_now"@[0] == 'f' && "settings"@[0] == 's');
    assert("profile_work"@.len() == 12 && "profile_gaming"@.len() == 14);
    assert("profile_focus"@.len() == 13 && "check_updates"@.len() == 13);
    assert("profile_focus"@[0] == 'p' && "check_updates"@[0] == 'c');
    assert("open_detail"@.len() == 11 && "quit"@.len() == 4);
    let menu = menu_under(profile);
    assert(menu[2] == MenuEntryView::Check("profile_work"@, "Work"@, profile == ProfileView::Work));
    assert(menu[3] == MenuEntryView::Check(
        "profile_gaming"@,
        "Gaming"@,
        profile == ProfileView::Gaming,
    ));
    assert(menu[4] == MenuEntryView::Check("profile_focus"@, "Focus"@, profile == ProfileView::Focus));
}

// ---------------------------------------------------------------------------
// Windows
// ---------------------------------------------------------------------------

/// Sizes around the popup, in pixels of the screen.
#[derive(Debug, Clone, Copy, PartialEq, Eq, Structural)]
pub struct PopupSizes {
    pub popup_width: i32,
    pub popup_height: i32,
    pub margin: i32,
    pub taskbar_height: i32,
}

/// The popup and what stands around it can be measured on a screen.
pub open spec fn sizes_fit(sizes: PopupSizes) -> bool {
    &&& 0 <= sizes.popup_width && 0 <= sizes.popup_height
    &&& 0 <= sizes.margin && 0 <= sizes.taskbar_height
    &&& sizes.popup_width + sizes.margin <= i32::MAX
    &&& sizes.popup_height + sizes.taskbar_height + sizes.margin <= i32::MAX
}

/// Where the popup goes: in the lower right corner, above the task bar.
pub fn popup_position(screen_width: i32, screen_height: i32, sizes: PopupSizes) -> (r: (i32, i32))
    requires
        screen_width >= 0,
        screen_height >= 0,
        sizes_fit(sizes),
    ensures
        r.0 == screen_width - sizes.popup_width - sizes.margin,
        r.1 == screen_height - sizes.popup_height - sizes.taskbar_height - sizes.margin,
{
    (
        screen_width - sizes.popup_width - sizes.margin,
        screen_height - sizes.popup_height - sizes.taskbar_height - sizes.margin,
    )
}

/// The window to show where the application is started a second time: the popup,
/// else the detail window.
pub fn activation_window(has_popup: bool, has_detail: bool) -> (r: Option<&'static str>)
    ensures
        match r {
            Some(label) => if has_popup {
                label@ == "popup"@
            } else {
                has_detail && label@ == "detail"@
            },
            None => !has_popup && !has_detail,
        },
{
    if has_popup {
        Some("popup")
    } else if has_detail {
        Some("detail")
    } else {
        None
    }
}

/// What is done to windows.
#[derive(Debug, Clone, Copy, PartialEq, Eq, Structural)]
pub enum WindowAction {
    /// Show the detail window and give it the focus.
    ShowDetail,
    /// Tell the detail window which tab to show.
    SwitchTab,
    /// Hide the popup.
    HidePopup,
}

/// How the detail window is opened from the popup. It has to have the focus
/// before the popup is hidden: the focus can be passed on only by who owns it.
pub fn open_detail_window_tab() -> (r: Vec<WindowAction>)
    ensures
        r@ == seq![WindowAction::ShowDetail, WindowAction::SwitchTab, WindowAction::HidePopup],
{
    let mut r: Vec<WindowAction> = Vec::new();
    r.push(WindowAction::ShowDetail);
    r.push(WindowAction::SwitchTab);
    r.push(WindowAction::HidePopup);
    assert(r@ =~= seq![WindowAction::ShowDetail, WindowAction::SwitchTab, WindowAction::HidePopup]);
    r
}

// ---------------------------------------------------------------------------
// Shutdown
// ---------------------------------------------------------------------------

/// What is done on the way out.
#[derive(Debug, Clone, Copy, PartialEq, Eq, Structural)]
pub enum QuitAction {
    /// Resume all suspended processes.
    ResumeAll,
    /// Write an empty set of suspended processes to disk.
    ClearSavedSet,
    /// Write the settings to disk.
    SaveConfig,
    Exit,
}

/// The way out, in order.
pub open spec fn quit_plan(suspender_found: bool) -> Seq<QuitAction> {
    if suspender_found {
        seq![
            QuitAction::ResumeAll,
            QuitAction::ClearSavedSet,
            QuitAction::SaveConfig,
            QuitAction::Exit,
        ]
    } else {
        seq![QuitAction::ClearSavedSet, QuitAction::SaveConfig, QuitAction::Exit]
    }
}

/// The way out, in order. Nothing stays suspended where that can be helped, and
/// nothing is remembered as suspended.
pub fn safe_quit(suspender_found: bool) -> (r: Vec<QuitAction>)
    ensures
        r@ == quit_plan(suspender_found),
{
    let mut r: Vec<QuitAction> = Vec::new();
    if suspender_found {
        r.push(QuitAction::ResumeAll);
    }
    r.push(QuitAction::ClearSavedSet);
    r.push(QuitAction::SaveConfig);
    r.push(QuitAction::Exit);
    assert(r@ =~= quit_plan(suspender_found));
    r
}

/// On the way out whatever is suspended is resumed, where that can be done, before it
/// is forgotten; the settings are saved; and leaving comes last.
pub proof fn nothing_is_left_behind_on_the_way_out(suspender_found: bool)
    ensures
        ({
            let plan = quit_plan(suspender_found);
            &&& plan.last() == QuitAction::Exit
            &&& plan[plan.len() - 2] == QuitAction::SaveConfig
            &&& plan[plan.len() - 3] == QuitAction::ClearSavedSet
            &&& suspender_found ==> plan[0] == QuitAction::ResumeAll && plan.len() == 4
            &&& !suspender_found ==> plan.len() == 3
        }),
{
}

} // verus!
