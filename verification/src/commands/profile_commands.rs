//! Switching profiles and telling which is active.

use vstd::prelude::*;

use crate::engine::profiles::{leave_focus, left_focus, name_of, profile_to_name};
use crate::state::app_state::{
    profile_named, profiles_go_by_their_names, AppState, AppStateView, Profile, ProfileView,
};
use crate::state::config::UserConfigView;
use crate::text::lowered;

verus! {

/// How a profile is switched to.
#[derive(Debug)]
pub enum ProfileRequest {
    /// Step by step, with all that belongs to it.
    Activate(Profile),
    /// It was switched to already, since nothing can be suspended on this
    /// system; the settings are to be written to disk.
    Switched,
}

/// The state with another profile active. The settings keep the name as it was
/// given.
pub open spec fn renamed(s: AppStateView, name: Seq<char>) -> AppStateView {
    AppStateView {
        active_profile: profile_named(name),
        config: UserConfigView { active_profile: name, ..s.config },
        ..s
    }
}

/// The state once a profile was switched to without suspending anything. Leaving
/// Focus spares no application any longer and puts the user's settings back.
pub open spec fn switched_plainly(s: AppStateView, name: Seq<char>) -> AppStateView {
    if s.active_profile == ProfileView::Focus && profile_named(name) != ProfileView::Focus {
        left_focus(renamed(s, name))
    } else {
        renamed(s, name)
    }
}

/// Switches to the profile of a name, in any case. Where processes can be
/// suspended the switch is left to be made step by step; else it is made at once.
pub fn set_profile(name: &str, state: &mut AppState) -> (r: ProfileRequest)
    ensures
        if old(state)@.suspender_available {
            r matches ProfileRequest::Activate(profile) && profile@ == profile_named(name@)
                && final(state)@ == old(state)@
        } else {
            r is Switched && final(state)@ == switched_plainly(old(state)@, name@)
        },
        old(state)@.consistent() ==> final(state)@.consistent(),
{
    let profile: Profile = Profile::from_name(name);
    if state.suspender_available {
        ProfileRequest::Activate(profile)
    } else {
        let leaves_focus: bool = state.active_profile.is_focus() && !profile.is_focus();
        state.active_profile = profile;
        state.config.active_profile = name.to_owned();
        if leaves_focus {
            leave_focus(state);
        }
        ProfileRequest::Switched
    }
}

/// The name of the active profile.
pub fn get_current_profile(state: &AppState) -> (r: String)
    ensures
        r@ == name_of(state@.active_profile),
{
    profile_to_name(&state.active_profile)
}

/// A switch where nothing can be suspended makes the profile of that name active and
/// keeps the name as it was given. Leaving Focus puts back what was put aside and
/// spares no application; any other switch leaves the rest as it is.
pub proof fn a_plain_switch_changes_the_profile(s: AppStateView, name: Seq<char>)
    ensures
        ({
            let end = switched_plainly(s, name);
            let c = s.config;
            let leaves_focus = s.active_profile is Focus && lowered(name) != "focus"@;
            &&& end.active_profile is Gaming <==> lowered(name) == "gaming"@
            &&& end.active_profile is Focus <==> lowered(name) == "focus"@
            &&& end.active_profile is Custom <==> lowered(name) == "custom"@
            &&& end.config.active_profile == name
            &&& !leaves_focus ==> end == (AppStateView {
                active_profile: end.active_profile,
                config: (UserConfigView { active_profile: name, ..c }),
                ..s
            })
            &&& leaves_focus ==> {
                &&& end.session_excluded is None
                &&& end.config.pre_focus_idle_threshold is None
                &&& end.config.pre_focus_hard_suspend is None
                &&& c.pre_focus_idle_threshold matches Some(secs) ==> end.config.idle_threshold_secs
                    == secs
                &&& c.pre_focus_idle_threshold is None ==> end.config.idle_threshold_secs
                    == c.idle_threshold_secs
                &&& c.pre_focus_hard_suspend matches Some(allowed)
                    ==> end.config.hard_suspend_enabled == allowed
                &&& c.pre_focus_hard_suspend is None ==> end.config.hard_suspend_enabled
                    == c.hard_suspend_enabled
                &&& end == (AppStateView {
                    active_profile: end.active_profile,
                    session_excluded: None,
                    config: (UserConfigView {
                        active_profile: name,
                        idle_threshold_secs: end.config.idle_threshold_secs,
                        hard_suspend_enabled: end.config.hard_suspend_enabled,
                        pre_focus_idle_threshold: None,
                        pre_focus_hard_suspend: None,
                        ..c
                    }),
                    ..s
                })
            }
        }),
{
    profiles_go_by_their_names(name, ProfileView::Work);
}

} // verus!
