//! The user's settings.

use vstd::prelude::*;

use crate::text::texts;

verus! {

/// Persistent user preferences.
#[derive(Debug)]
pub struct UserConfig {
    /// Whether the auto-trim loop is active.
    pub auto_trim_enabled: bool,
    /// Memory pressure percentage that triggers auto-trim.
    pub auto_trim_threshold_pct: u8,
    /// Minimum idle time before a process is eligible for trimming (seconds).
    pub idle_threshold_secs: u64,
    /// Name of the active profile.
    pub active_profile: String,
    /// Whether hard suspend is allowed at all.
    pub hard_suspend_enabled: bool,
    /// Executable names the user has excluded from all automatic actions.
    pub excluded_processes: Vec<String>,
    /// Whether the application starts with the user's session.
    pub start_on_login: bool,
    /// Whether toast notifications are allowed.
    pub notifications_enabled: bool,
    /// UI theme: "system", "dark" or "light".
    pub theme: String,
    /// Maximum number of trim events kept in the history.
    pub trim_history_limit: usize,
    /// Whether the first-launch onboarding has been completed.
    pub first_launch_complete: bool,
    /// Idle threshold from before entering Focus mode.
    pub pre_focus_idle_threshold: Option<u64>,
    /// Hard-suspend permission from before entering Focus mode.
    pub pre_focus_hard_suspend: Option<bool>,
}

/// The settings as plain mathematical values.
#[verifier::ext_equal]
pub struct UserConfigView {
    pub auto_trim_enabled: bool,
    pub auto_trim_threshold_pct: u8,
    pub idle_threshold_secs: u64,
    pub active_profile: Seq<char>,
    pub hard_suspend_enabled: bool,
    pub excluded_processes: Seq<Seq<char>>,
    pub start_on_login: bool,
    pub notifications_enabled: bool,
    pub theme: Seq<char>,
    pub trim_history_limit: usize,
    pub first_launch_complete: bool,
    pub pre_focus_idle_threshold: Option<u64>,
    pub pre_focus_hard_suspend: Option<bool>,
}

impl View for UserConfig {
    type V = UserConfigView;

    open spec fn view(&self) -> UserConfigView {
        UserConfigView {
            auto_trim_enabled: self.auto_trim_enabled,
            auto_trim_threshold_pct: self.auto_trim_threshold_pct,
            idle_threshold_secs: self.idle_threshold_secs,
            active_profile: self.active_profile@,
            hard_suspend_enabled: self.hard_suspend_enabled,
            excluded_processes: texts(self.excluded_processes@),
            start_on_login: self.start_on_login,
            notifications_enabled: self.notifications_enabled,
            theme: self.theme@,
            trim_history_limit: self.trim_history_limit,
            first_launch_complete: self.first_launch_complete,
            pre_focus_idle_threshold: self.pre_focus_idle_threshold,
            pre_focus_hard_suspend: self.pre_focus_hard_suspend,
        }
    }
}

/// The settings of a fresh installation.
pub open spec fn default_config() -> UserConfigView {
    UserConfigView {
        auto_trim_enabled: true,
        auto_trim_threshold_pct: 80,
        idle_threshold_secs: 600,
        active_profile: "Work"@,
        hard_suspend_enabled: false,
        excluded_processes: seq!["code.exe"@, "chrome.exe"@],
        start_on_login: true,
        notifications_enabled: true,
        theme: "system"@,
        trim_history_limit: 50,
        first_launch_complete: false,
        pre_focus_idle_threshold: None,
        pre_focus_hard_suspend: None,
    }
}

impl Default for UserConfig {
    fn default() -> (r: Self)
        ensures
            r@ == default_config(),
    {
        let mut excluded: Vec<String> = Vec::new();
        excluded.push("code.exe".to_owned());
        excluded.push("chrome.exe".to_owned());
        let r = UserConfig {
            auto_trim_enabled: true,
            auto_trim_threshold_pct: 80,
            idle_threshold_secs: 600,
            active_profile: "Work".to_owned(),
            hard_suspend_enabled: false,
            excluded_processes: excluded,
            start_on_login: true,
            notifications_enabled: true,
            theme: "system".to_owned(),
            trim_history_limit: 50,
            first_launch_complete: false,
            pre_focus_idle_threshold: None,
            pre_focus_hard_suspend: None,
        };
        assert(r@.excluded_processes =~= default_config().excluded_processes);
        r
    }
}

/// Copies a list of strings.
pub fn clone_texts(list: &Vec<String>) -> (r: Vec<String>)
    ensures
        r@ == list@,
{
    let r: Vec<String> = list.clone();
    assert(r@ =~= list@);
    r
}

impl Clone for UserConfig {
    fn clone(&self) -> (r: Self)
        ensures
            r@ == self@,
    {
        UserConfig {
            auto_trim_enabled: self.auto_trim_enabled,
            auto_trim_threshold_pct: self.auto_trim_threshold_pct,
            idle_threshold_secs: self.idle_threshold_secs,
            active_profile: self.active_profile.clone(),
            hard_suspend_enabled: self.hard_suspend_enabled,
            excluded_processes: clone_texts(&self.excluded_processes),
            start_on_login: self.start_on_login,
            notifications_enabled: self.notifications_enabled,
            theme: self.theme.clone(),
            trim_history_limit: self.trim_history_limit,
            first_launch_complete: self.first_launch_complete,
            pre_focus_idle_threshold: self.pre_focus_idle_threshold,
            pre_focus_hard_suspend: self.pre_focus_hard_suspend,
        }
    }
}

/// What came of looking for the settings file.
#[derive(Debug)]
pub enum ConfigReading {
    /// The place where settings live could not be told.
    NoLocation(String),
    /// There is no settings file yet.
    Missing,
    /// The file is there and could not be read.
    Unreadable(String),
    /// The file does not hold settings.
    Corrupt,
    /// The file holds these settings.
    Parsed(UserConfig),
}

impl UserConfig {
    /// The settings to start with. A missing or corrupt file gives the defaults;
    /// a file that cannot be located or read is an error.
    pub fn load(reading: ConfigReading) -> (r: Result<UserConfig, String>)
        ensures
            match reading {
                ConfigReading::NoLocation(e) => r matches Err(m) && m@ == e@,
                ConfigReading::Missing => r matches Ok(c) && c@ == default_config(),
                ConfigReading::Unreadable(e) => r matches Err(m) && m@ == e@,
                ConfigReading::Corrupt => r matches Ok(c) && c@ == default_config(),
                ConfigReading::Parsed(p) => r matches Ok(c) && c == p,
            },
    {
        match reading {
            ConfigReading::NoLocation(e) => Err(e),
            ConfigReading::Missing => Ok(UserConfig::default()),
            ConfigReading::Unreadable(e) => Err(e),
            ConfigReading::Corrupt => Ok(UserConfig::default()),
            ConfigReading::Parsed(p) => Ok(p),
        }
    }
}

} // verus!
