//! Reading and changing the settings.

use vstd::prelude::*;

use crate::engine::notifications::{notify_welcome, toast_of, Toast};
use crate::engine::suspender::{can_suspend, load_suspender, SuspenderLookup};
use crate::engine::trimmer::{a_plan_holds_no_spared_name, excluded_names, is_trim_plan};
use crate::json::{
    field_views, json_document, parse_json, JsonDocument, JsonDocumentView, JsonField,
    JsonFieldView, JsonValue, JsonValueView,
};
use crate::state::app_state::{AppState, AppStateView, ProcessEntry};
use crate::state::config::{UserConfig, UserConfigView};
use crate::text::{
    concat2, concat3, decimal, decimal_text, is_one_of, list_contains, lowered, same_text,
    str_texts, texts, to_lowercase,
};

verus! {

/// The current settings.
pub fn get_config(state: &AppState) -> (r: UserConfig)
    ensures
        r@ == state@.config,
{
    state.config.clone()
}

// ---------------------------------------------------------------------------
// Changing single settings
// ---------------------------------------------------------------------------

/// The themes there are.
pub open spec fn is_theme(theme: Seq<char>) -> bool {
    theme == "system"@ || theme == "dark"@ || theme == "light"@
}

/// The settings with one member of a change merged in, or why the member is
/// refused. A member that names no setting changes nothing.
pub open spec fn with_field(c: UserConfigView, field: JsonFieldView) -> Result<
    UserConfigView,
    Seq<char>,
> {
    let key = field.key;
    let value = field.value;
    if key == "auto_trim_enabled"@ {
        match value {
            JsonValueView::Bool(b) => Ok(UserConfigView { auto_trim_enabled: b, ..c }),
            _ => Err("Invalid value for auto_trim_enabled: expected bool"@),
        }
    } else if key == "auto_trim_threshold_pct"@ {
        match value {
            JsonValueView::Unsigned(n) => if 50 <= n <= 95 {
                Ok(UserConfigView { auto_trim_threshold_pct: n as u8, ..c })
            } else {
                Err(
                    "Invalid value for auto_trim_threshold_pct: "@ + decimal(n as nat)
                        + " is out of range 50–95"@,
                )
            },
            _ => Err("Invalid value for auto_trim_threshold_pct: expected u8"@),
        }
    } else if key == "idle_threshold_secs"@ {
        match value {
            JsonValueView::Unsigned(v) => if 60 <= v <= 3600 {
                Ok(UserConfigView { idle_threshold_secs: v, ..c })
            } else {
                Err(
                    "Invalid value for idle_threshold_secs: "@ + decimal(v as nat)
                        + " is out of range 60–3600"@,
                )
            },
            _ => Err("Invalid value for idle_threshold_secs: expected u64"@),
        }
    } else if key == "active_profile"@ {
        match value {
            JsonValueView::Text(t) => Ok(UserConfigView { active_profile: t, ..c }),
            _ => Err("Invalid value for active_profile: expected string"@),
        }
    } else if key == "hard_suspend_enabled"@ {
        match value {
            JsonValueView::Bool(b) => Ok(UserConfigView { hard_suspend_enabled: b, ..c }),
            _ => Err("Invalid value for hard_suspend_enabled: expected bool"@),
        }
    } else if key == "start_on_login"@ {
        match value {
            JsonValueView::Bool(b) => Ok(UserConfigView { start_on_login: b, ..c }),
            _ => Err("Invalid value for start_on_login: expected bool"@),
        }
    } else if key == "notifications_enabled"@ {
        match value {
            JsonValueView::Bool(b) => Ok(UserConfigView { notifications_enabled: b, ..c }),
            _ => Err("Invalid value for notifications_enabled: expected bool"@),
        }
    } else if key == "theme"@ {
        match value {
            JsonValueView::Text(t) => if is_theme(t) {
                Ok(UserConfigView { theme: t, ..c })
            } else {
                Err("Invalid value for theme: must be system, dark, or light"@)
            },
            _ => Err("Invalid value for theme: expected string"@),
        }
    } else if key == "trim_history_limit"@ {
        match value {
            JsonValueView::Unsigned(n) => Ok(UserConfigView { trim_history_limit: n as usize, ..c }),
            _ => Err("Invalid value for trim_history_limit: expected usize"@),
        }
    } else if key == "first_launch_complete"@ {
        match value {
            JsonValueView::Bool(b) => Ok(UserConfigView { first_launch_complete: b, ..c }),
            _ => Err("Invalid value for first_launch_complete: expected bool"@),
        }
    } else {
        Ok(c)
    }
}

/// The settings, or why they were refused, as plain mathematical values.
pub open spec fn config_result_view(r: Result<UserConfig, String>) -> Result<
    UserConfigView,
    Seq<char>,
> {
    match r {
        Ok(c) => Ok(c@),
        Err(e) => Err(e@),
    }
}

fn bool_of(value: &JsonValue) -> (r: Option<bool>)
    ensures
        r == (match value@ {
            JsonValueView::Bool(b) => Some(b),
            _ => None,
        }),
{
    match value {
        JsonValue::Bool(b) => Some(*b),
        _ => None,
    }
}

fn number_of(value: &JsonValue) -> (r: Option<u64>)
    ensures
        r == (match value@ {
            JsonValueView::Unsigned(n) => Some(n),
            _ => None,
        }),
{
    match value {
        JsonValue::Unsigned(n) => Some(*n),
        _ => None,
    }
}

fn merge_field(config: UserConfig, field: &JsonField) -> (r: Result<UserConfig, String>)
    ensures
        config_result_view(r) == with_field(config@, field@),
{
    let mut config = config;
    let key: &str = field.key.as_str();
    let flag: Option<bool> = bool_of(&field.value);
    let number: Option<u64> = number_of(&field.value);
    if same_text(key, "auto_trim_enabled") {
        return match flag {
            Some(b) => {
                config.auto_trim_enabled = b;
                Ok(config)
            },
            None => Err("Invalid value for auto_trim_enabled: expected bool".to_owned()),
        };
    }
    if same_text(key, "auto_trim_threshold_pct") {
        return match number {
            Some(n) => if 50 <= n && n <= 95 {
                config.auto_trim_threshold_pct = n as u8;
                Ok(config)
            } else {
                Err(
                    concat3(
                        "Invalid value for auto_trim_threshold_pct: ",
                        decimal_text(n).as_str(),
                        " is out of range 50–95",
                    ),
                )
            },
            None => Err("Invalid value for auto_trim_threshold_pct: expected u8".to_owned()),
        };
    }
    if same_text(key, "idle_threshold_secs") {
        return match number {
            Some(v) => if 60 <= v && v <= 3600 {
                config.idle_threshold_secs = v;
                Ok(config)
            } else {
                Err(
                    concat3(
                        "Invalid value for idle_threshold_secs: ",
                        decimal_text(v).as_str(),
                        " is out of range 60–3600",
                    ),
                )
            },
            None => Err("Invalid value for idle_threshold_secs: expected u64".to_owned()),
        };
    }
    if same_text(key, "active_profile") {
        return match &field.value {
            JsonValue::Text(t) => {
                config.active_profile = t.clone();
                Ok(config)
            },
            _ => Err("Invalid value for active_profile: expected string".to_owned()),
        };
    }
    if same_text(key, "hard_suspend_enabled") {
        return match flag {
            Some(b) => {
                config.hard_suspend_enabled = b;
                Ok(config)
            },
            None => Err("Invalid value for hard_suspend_enabled: expected bool".to_owned()),
        };
    }
    if same_text(key, "start_on_login") {
        return match flag {
            Some(b) => {
                config.start_on_login = b;
                Ok(config)
            },
            None => Err("Invalid value for start_on_login: expected bool".to_owned()),
        };
    }
    if same_text(key, "notifications_enabled") {
        return match flag {
            Some(b) => {
                config.notifications_enabled = b;
                Ok(config)
            },
            None => Err("Invalid value for notifications_enabled: expected bool".to_owned()),
        };
    }
    if same_text(key, "theme") {
        return match &field.value {
            JsonValue::Text(t) => if same_text(t.as_str(), "system") || same_text(
                t.as_str(),
                "dark",
            ) || same_text(t.as_str(), "light") {
                config.theme = t.clone();
                Ok(config)
            } else {
                Err("Invalid value for theme: must be system, dark, or light".to_owned())
            },
            _ => Err("Invalid value for theme: expected string".to_owned()),
        };
    }
    if same_text(key, "trim_history_limit") {
        return match number {
            Some(n) => {
                config.trim_history_limit = n as usize;
                Ok(config)
            },
            None => Err("Invalid value for trim_history_limit: expected usize".to_owned()),
        };
    }
    if same_text(key, "first_launch_complete") {
        return match flag {
            Some(b) => {
                config.first_launch_complete = b;
                Ok(config)
            },
            None => Err("Invalid value for first_launch_complete: expected bool".to_owned()),
        };
    }
    Ok(config)
}

// ---------------------------------------------------------------------------
// Changing several settings
// ---------------------------------------------------------------------------

/// The settings with the members of a change merged in, one after the other; the
/// first that is refused refuses them all.
pub open spec fn merged(c: UserConfigView, fields: Seq<JsonFieldView>) -> Result<
    UserConfigView,
    Seq<char>,
>
    decreases fields.len(),
{
    if fields.len() == 0 {
        Ok(c)
    } else {
        match merged(c, fields.drop_last()) {
            Ok(before) => with_field(before, fields.last()),
            Err(e) => Err(e),
        }
    }
}

/// What the start-up entry of the application is set to on the way: the last
/// accepted wish that was merged before anything was refused.
pub open spec fn login_wish(c: UserConfigView, fields: Seq<JsonFieldView>) -> Option<bool>
    decreases fields.len(),
{
    if fields.len() == 0 {
        None
    } else {
        let before = login_wish(c, fields.drop_last());
        if merged(c, fields.drop_last()) is Ok && fields.last().key == "start_on_login"@ {
            match fields.last().value {
                JsonValueView::Bool(b) => Some(b),
                _ => before,
            }
        } else {
            before
        }
    }
}

proof fn lemma_refusal_stays(c: UserConfigView, fields: Seq<JsonFieldView>, n: int)
    requires
        0 <= n <= fields.len(),
        merged(c, fields.take(n)) is Err,
    ensures
        merged(c, fields) == merged(c, fields.take(n)),
        login_wish(c, fields) == login_wish(c, fields.take(n)),
    decreases fields.len() - n,
{
    if n < fields.len() {
        assert(fields.take(n + 1).drop_last() =~= fields.take(n));
        lemma_refusal_stays(c, fields, n + 1);
    } else {
        assert(fields.take(n) =~= fields);
    }
}

/// What came of a change of settings.
#[derive(Debug)]
pub struct ConfigUpdate {
    /// Set the start-up entry of the application to this.
    pub start_on_login: Option<bool>,
    /// The settings to save, or why the change is refused.
    pub outcome: Result<UserConfig, String>,
}

/// The settings behind a change, or why it is refused.
pub open spec fn updated(c: UserConfigView, document: Result<JsonDocumentView, Seq<char>>) -> Result<
    UserConfigView,
    Seq<char>,
> {
    match document {
        Ok(JsonDocumentView::Object(fields)) => merged(c, fields),
        Ok(JsonDocumentView::Other) => Err("Expected a JSON object"@),
        Err(e) => Err("Invalid JSON: "@ + e),
    }
}

/// What the start-up entry is set to on the way.
pub open spec fn wish_of(c: UserConfigView, document: Result<JsonDocumentView, Seq<char>>) -> Option<
    bool,
> {
    match document {
        Ok(JsonDocumentView::Object(fields)) => login_wish(c, fields),
        _ => None,
    }
}

/// Merges a change into settings.
pub fn merge_document(document: &JsonDocument, config: &UserConfig) -> (r: ConfigUpdate)
    ensures
        config_result_view(r.outcome) == updated(config@, Ok(document@)),
        r.start_on_login == wish_of(config@, Ok(document@)),
{
    match document {
        JsonDocument::Object(fields) => {
            let ghost all = field_views(fields@);
            let mut current: UserConfig = config.clone();
            let mut start_on_login: Option<bool> = None;
            let mut i: usize = 0;
            assert(all.take(0) =~= Seq::empty());
            while i < fields.len()
                invariant
                    i <= fields@.len(),
                    all == field_views(fields@),
                    document@ == JsonDocumentView::Object(all),
                    merged(config@, all.take(i as int)) == Ok::<UserConfigView, Seq<char>>(current@),
                    start_on_login == login_wish(config@, all.take(i as int)),
                decreases fields@.len() - i,
            {
                proof {
                    assert(all.take(i + 1).drop_last() =~= all.take(i as int));
                    assert(all.take(i + 1).last() == fields@[i as int]@);
                }
                let wish: Option<bool> = bool_of(&fields[i].value);
                if wish.is_some() && same_text(fields[i].key.as_str(), "start_on_login") {
                    start_on_login = wish;
                }
                match merge_field(current, &fields[i]) {
                    Ok(next) => {
                        current = next;
                    },
                    Err(e) => {
                        proof {
                            assert(merged(config@, all.take(i + 1)) == Err::<
                                UserConfigView,
                                Seq<char>,
                            >(e@));
                            lemma_refusal_stays(config@, all, i + 1);
                        }
                        return ConfigUpdate { start_on_login, outcome: Err(e) };
                    },
                }
                i = i + 1;
            }
            assert(all.take(i as int) =~= all);
            ConfigUpdate { start_on_login, outcome: Ok(current) }
        },
        JsonDocument::Other => ConfigUpdate {
            start_on_login: None,
            outcome: Err("Expected a JSON object".to_owned()),
        },
    }
}

/// Works out a change of settings from JSON. Only settings that are named
/// change.
pub fn update_config(partial_json: &str, state: &AppState) -> (r: ConfigUpdate)
    ensures
        config_result_view(r.outcome) == updated(state@.config, json_document(partial_json@)),
        r.start_on_login == wish_of(state@.config, json_document(partial_json@)),
{
    match parse_json(partial_json) {
        Ok(document) => merge_document(&document, &state.config),
        Err(e) => ConfigUpdate {
            start_on_login: None,
            outcome: Err(concat2("Invalid JSON: ", e.as_str())),
        },
    }
}

/// Puts new settings into force once they were saved; where saving failed the
/// old ones stay.
pub fn apply_config(state: &mut AppState, config: UserConfig, saved: Result<(), String>) -> (r: Result<
    (),
    String,
>)
    ensures
        match saved {
            Ok(_) => r is Ok && final(state)@ == (AppStateView {
                config: config@,
                ..old(state)@
            }),
            Err(e) => r is Err && r->Err_0@ == "Failed to save config: "@ + e@ && final(state)@
                == old(state)@,
        },
        old(state)@.consistent() ==> final(state)@.consistent(),
{
    match saved {
        Ok(_) => {
            state.config = config;
            Ok(())
        },
        Err(e) => Err(concat2("Failed to save config: ", e.as_str())),
    }
}

/// Settings as the user may make them.
pub open spec fn is_valid(c: UserConfigView) -> bool {
    &&& 50 <= c.auto_trim_threshold_pct <= 95
    &&& 60 <= c.idle_threshold_secs <= 3600
    &&& is_theme(c.theme)
}

/// No accepted change makes valid settings invalid.
pub proof fn settings_stay_valid(c: UserConfigView, document: Result<JsonDocumentView, Seq<char>>)
    requires
        is_valid(c),
        updated(c, document) is Ok,
    ensures
        is_valid(updated(c, document)->Ok_0),
{
    lemma_merged_valid(c, document->Ok_0->Object_0);
}

proof fn lemma_merged_valid(c: UserConfigView, fields: Seq<JsonFieldView>)
    requires
        is_valid(c),
    ensures
        merged(c, fields) matches Ok(after) ==> is_valid(after),
    decreases fields.len(),
{
    if fields.len() > 0 {
        lemma_merged_valid(c, fields.drop_last());
    }
}

/// A change names a setting.
pub open spec fn names_setting(fields: Seq<JsonFieldView>, key: Seq<char>) -> bool {
    exists|i: int| 0 <= i < fields.len() && (#[trigger] fields[i]).key == key
}

/// A setting that a change does not name stays as it is; the exclusions and what
/// Focus mode put aside cannot be changed this way at all.
pub proof fn a_change_touches_only_what_it_names(c: UserConfigView, fields: Seq<JsonFieldView>)
    ensures
        merged(c, fields) matches Ok(after) ==> {
            &&& !names_setting(fields, "auto_trim_enabled"@) ==> after.auto_trim_enabled
                == c.auto_trim_enabled
            &&& !names_setting(fields, "auto_trim_threshold_pct"@) ==> after.auto_trim_threshold_pct
                == c.auto_trim_threshold_pct
            &&& !names_setting(fields, "idle_threshold_secs"@) ==> after.idle_threshold_secs
                == c.idle_threshold_secs
            &&& !names_setting(fields, "active_profile"@) ==> after.active_profile
                == c.active_profile
            &&& !names_setting(fields, "hard_suspend_enabled"@) ==> after.hard_suspend_enabled
                == c.hard_suspend_enabled
            &&& !names_setting(fields, "start_on_login"@) ==> after.start_on_login
                == c.start_on_login
            &&& !names_setting(fields, "notifications_enabled"@) ==> after.notifications_enabled
                == c.notifications_enabled
            &&& !names_setting(fields, "theme"@) ==> after.theme == c.theme
            &&& !names_setting(fields, "trim_history_limit"@) ==> after.trim_history_limit
                == c.trim_history_limit
            &&& !names_setting(fields, "first_launch_complete"@) ==> after.first_launch_complete
                == c.first_launch_complete
            &&& after.excluded_processes == c.excluded_processes
            &&& after.pre_focus_idle_threshold == c.pre_focus_idle_threshold
            &&& after.pre_focus_hard_suspend == c.pre_focus_hard_suspend
        },
    decreases fields.len(),
{
    if fields.len() > 0 {
        let front = fields.drop_last();
        a_change_touches_only_what_it_names(c, front);
        assert forall|key: Seq<char>| !#[trigger] names_setting(fields, key) implies !names_setting(
            front,
            key,
        ) && fields.last().key != key by {
            assert(fields[fields.len() - 1] == fields.last());
            if names_setting(front, key) {
                let i = choose|i: int| 0 <= i < front.len() && (#[trigger] front[i]).key == key;
                assert(fields[i].key == key);
            }
        }
    }
}

/// No two settings have the same key.
proof fn lemma_keys()
    ensures
        "auto_trim_enabled"@.len() == 17,
        "auto_trim_threshold_pct"@.len() == 23,
        "idle_threshold_secs"@.len() == 19,
        "active_profile"@.len() == 14 && "active_profile"@[0] == 'a',
        "hard_suspend_enabled"@.len() == 20,
        "start_on_login"@.len() == 14 && "start_on_login"@[0] == 's',
        "notifications_enabled"@.len() == 21 && "notifications_enabled"@[0] == 'n',
        "theme"@.len() == 5,
        "trim_history_limit"@.len() == 18,
        "first_launch_complete"@.len() == 21 && "first_launch_complete"@[0] == 'f',
{
    reveal_strlit("auto_trim_enabled");
    reveal_strlit("auto_trim_threshold_pct");
    reveal_strlit("idle_threshold_secs");
    reveal_strlit("active_profile");
    reveal_strlit("hard_suspend_enabled");
    reveal_strlit("start_on_login");
    reveal_strlit("notifications_enabled");
    reveal_strlit("theme");
    reveal_strlit("trim_history_limit");
    reveal_strlit("first_launch_complete");
}

/// A setting that an accepted change names has the value that the change gives it
/// last.
pub proof fn a_change_sets_what_it_names(c: UserConfigView, fields: Seq<JsonFieldView>, i: int)
    requires
        0 <= i < fields.len(),
        forall|j: int| i < j < fields.len() ==> (#[trigger] fields[j]).key != fields[i].key,
        updated(c, Ok(JsonDocumentView::Object(fields))) is Ok,
    ensures
        ({
            let after = updated(c, Ok(JsonDocumentView::Object(fields)))->Ok_0;
            let key = fields[i].key;
            let value = fields[i].value;
            &&& key == "auto_trim_enabled"@ ==> value == JsonValueView::Bool(after.auto_trim_enabled)
            &&& key == "auto_trim_threshold_pct"@ ==> (value matches JsonValueView::Unsigned(n) && n
                == after.auto_trim_threshold_pct && 50 <= n <= 95)
            &&& key == "idle_threshold_secs"@ ==> (value == JsonValueView::Unsigned(
                after.idle_threshold_secs,
            ) && 60 <= after.idle_threshold_secs <= 3600)
            &&& key == "active_profile"@ ==> value == JsonValueView::Text(after.active_profile)
            &&& key == "hard_suspend_enabled"@ ==> value == JsonValueView::Bool(
                after.hard_suspend_enabled,
            )
            &&& key == "start_on_login"@ ==> value == JsonValueView::Bool(after.start_on_login)
            &&& key == "notifications_enabled"@ ==> value == JsonValueView::Bool(
                after.notifications_enabled,
            )
            &&& key == "theme"@ ==> (value == JsonValueView::Text(after.theme) && (after.theme
                == "system"@ || after.theme == "dark"@ || after.theme == "light"@))
            &&& key == "trim_history_limit"@ ==> (value matches JsonValueView::Unsigned(n) && (n
                <= usize::MAX ==> after.trim_history_limit == n))
            &&& key == "first_launch_complete"@ ==> value == JsonValueView::Bool(
                after.first_launch_complete,
            )
        }),
    decreases fields.len(),
{
    lemma_keys();
    let front = fields.drop_last();
    if i < front.len() {
        assert(front[i] == fields[i]);
        assert forall|j: int| i < j < front.len() implies (#[trigger] front[j]).key
            != front[i].key by {
            assert(fields[j].key != fields[i].key);
        }
        assert(updated(c, Ok(JsonDocumentView::Object(front))) == merged(c, front));
        a_change_sets_what_it_names(c, front, i);
        assert(fields[fields.len() - 1].key != fields[i].key);
    }
}

/// A change is accepted just where each of its members is: a switch takes a truth
/// value, a number lies in its range, a theme is one that there is. Members that
/// name no setting are never in the way. What is no object is refused.
pub proof fn a_change_is_accepted_just_where_its_members_are(
    c: UserConfigView,
    fields: Seq<JsonFieldView>,
    e: Seq<char>,
)
    ensures
        updated(c, Ok(JsonDocumentView::Object(fields))) is Ok <==> forall|i: int|
            0 <= i < fields.len() ==> {
            let f = #[trigger] fields[i];
            &&& f.key == "auto_trim_enabled"@ ==> f.value is Bool
            &&& f.key == "auto_trim_threshold_pct"@ ==> (f.value matches JsonValueView::Unsigned(n)
                && 50 <= n <= 95)
            &&& f.key == "idle_threshold_secs"@ ==> (f.value matches JsonValueView::Unsigned(n) && 60
                <= n <= 3600)
            &&& f.key == "active_profile"@ ==> f.value is Text
            &&& f.key == "hard_suspend_enabled"@ ==> f.value is Bool
            &&& f.key == "start_on_login"@ ==> f.value is Bool
            &&& f.key == "notifications_enabled"@ ==> f.value is Bool
            &&& f.key == "theme"@ ==> (f.value matches JsonValueView::Text(t) && (t == "system"@ || t
                == "dark"@ || t == "light"@))
            &&& f.key == "trim_history_limit"@ ==> f.value is Unsigned
            &&& f.key == "first_launch_complete"@ ==> f.value is Bool
        },
        updated(c, Ok(JsonDocumentView::Other)) is Err,
        updated(c, Err(e)) is Err,
    decreases fields.len(),
{
    lemma_keys();
    if fields.len() > 0 {
        let front = fields.drop_last();
        let last = fields.last();
        a_change_is_accepted_just_where_its_members_are(c, front, e);
        assert(updated(c, Ok(JsonDocumentView::Object(front))) == merged(c, front));
        assert(fields[fields.len() - 1] == last);
        assert forall|i: int| 0 <= i < front.len() implies #[trigger] front[i] == fields[i] by {}
        if updated(c, Ok(JsonDocumentView::Object(fields))) is Ok {
            assert(merged(c, front) is Ok);
            assert forall|i: int| 0 <= i < fields.len() implies {
                let f = #[trigger] fields[i];
            &&& f.key == "auto_trim_enabled"@ ==> f.value is Bool
            &&& f.key == "auto_trim_threshold_pct"@ ==> (f.value matches JsonValueView::Unsigned(n)
                && 50 <= n <= 95)
            &&& f.key == "idle_threshold_secs"@ ==> (f.value matches JsonValueView::Unsigned(n) && 60
                <= n <= 3600)
            &&& f.key == "active_profile"@ ==> f.value is Text
            &&& f.key == "hard_suspend_enabled"@ ==> f.value is Bool
            &&& f.key == "start_on_login"@ ==> f.value is Bool
            &&& f.key == "notifications_enabled"@ ==> f.value is Bool
            &&& f.key == "theme"@ ==> (f.value matches JsonValueView::Text(t) && (t == "system"@ || t
                == "dark"@ || t == "light"@))
            &&& f.key == "trim_history_limit"@ ==> f.value is Unsigned
            &&& f.key == "first_launch_complete"@ ==> f.value is Bool
            } by {
                if i < front.len() {
                    assert(front[i] == fields[i]);
                }
            }
        }
        if forall|i: int|
            0 <= i < fields.len() ==> {
            let f = #[trigger] fields[i];
            &&& f.key == "auto_trim_enabled"@ ==> f.value is Bool
            &&& f.key == "auto_trim_threshold_pct"@ ==> (f.value matches JsonValueView::Unsigned(n)
                && 50 <= n <= 95)
            &&& f.key == "idle_threshold_secs"@ ==> (f.value matches JsonValueView::Unsigned(n) && 60
                <= n <= 3600)
            &&& f.key == "active_profile"@ ==> f.value is Text
            &&& f.key == "hard_suspend_enabled"@ ==> f.value is Bool
            &&& f.key == "start_on_login"@ ==> f.value is Bool
            &&& f.key == "notifications_enabled"@ ==> f.value is Bool
            &&& f.key == "theme"@ ==> (f.value matches JsonValueView::Text(t) && (t == "system"@ || t
                == "dark"@ || t == "light"@))
            &&& f.key == "trim_history_limit"@ ==> f.value is Unsigned
            &&& f.key == "first_launch_complete"@ ==> f.value is Bool
        } {
            assert forall|i: int| 0 <= i < front.len() implies {
                let f = #[trigger] front[i];
            &&& f.key == "auto_trim_enabled"@ ==> f.value is Bool
            &&& f.key == "auto_trim_threshold_pct"@ ==> (f.value matches JsonValueView::Unsigned(n)
                && 50 <= n <= 95)
            &&& f.key == "idle_threshold_secs"@ ==> (f.value matches JsonValueView::Unsigned(n) && 60
                <= n <= 3600)
            &&& f.key == "active_profile"@ ==> f.value is Text
            &&& f.key == "hard_suspend_enabled"@ ==> f.value is Bool
            &&& f.key == "start_on_login"@ ==> f.value is Bool
            &&& f.key == "notifications_enabled"@ ==> f.value is Bool
            &&& f.key == "theme"@ ==> (f.value matches JsonValueView::Text(t) && (t == "system"@ || t
                == "dark"@ || t == "light"@))
            &&& f.key == "trim_history_limit"@ ==> f.value is Unsigned
            &&& f.key == "first_launch_complete"@ ==> f.value is Bool
            } by {
                assert(front[i] == fields[i]);
            }
            assert(merged(c, front) is Ok);
        }
    }
}

/// An accepted change sets the start-up entry of the application just where it
/// names it, and then to what the settings say behind it.
pub proof fn the_start_up_entry_follows_the_settings(c: UserConfigView, fields: Seq<JsonFieldView>)
    requires
        updated(c, Ok(JsonDocumentView::Object(fields))) is Ok,
    ensures
        ({
            let after = updated(c, Ok(JsonDocumentView::Object(fields)))->Ok_0;
            let wish = wish_of(c, Ok(JsonDocumentView::Object(fields)));
            if names_setting(fields, "start_on_login"@) {
                wish == Some(after.start_on_login)
            } else {
                wish is None && after.start_on_login == c.start_on_login
            }
        }),
    decreases fields.len(),
{
    lemma_keys();
    let key = "start_on_login"@;
    if fields.len() > 0 {
        let front = fields.drop_last();
        let last = fields.last();
        assert(updated(c, Ok(JsonDocumentView::Object(front))) == merged(c, front));
        the_start_up_entry_follows_the_settings(c, front);
        assert(fields[fields.len() - 1] == last);
        if names_setting(front, key) {
            let i = choose|i: int| 0 <= i < front.len() && (#[trigger] front[i]).key == key;
            assert(fields[i].key == key);
        }
        if names_setting(fields, key) && last.key != key {
            let i = choose|i: int| 0 <= i < fields.len() && (#[trigger] fields[i]).key == key;
            assert(front[i].key == key);
        }
    }
}

/// Members are taken one after the other: the first that is refused refuses the
/// change for its own reason, whatever follows. A wish for the start-up entry counts
/// as soon as it is reached, and no longer once a member was refused.
pub proof fn members_are_taken_in_order(
    c: UserConfigView,
    fields: Seq<JsonFieldView>,
    more: JsonFieldView,
)
    ensures
        ({
            let before = updated(c, Ok(JsonDocumentView::Object(fields)));
            let after = updated(c, Ok(JsonDocumentView::Object(fields.push(more))));
            let wish = wish_of(c, Ok(JsonDocumentView::Object(fields)));
            let next = wish_of(c, Ok(JsonDocumentView::Object(fields.push(more))));
            &&& before is Err ==> after == before && next == wish
            &&& before is Ok && more.key != "start_on_login"@ ==> next == wish
            &&& before is Ok && more.key == "start_on_login"@ ==> (
            more.value matches JsonValueView::Bool(b) ==> next == Some(b))
            &&& before is Ok && more.key == "auto_trim_threshold_pct"@ ==> (
            more.value matches JsonValueView::Unsigned(n) ==> (n < 50 || n > 95) ==> after == Err::<
                UserConfigView,
                Seq<char>,
            >(
                "Invalid value for auto_trim_threshold_pct: "@ + decimal(n as nat)
                    + " is out of range 50–95"@,
            ))
            &&& before is Ok && more.key == "idle_threshold_secs"@ ==> (
            more.value matches JsonValueView::Unsigned(n) ==> (n < 60 || n > 3600) ==> after == Err::<
                UserConfigView,
                Seq<char>,
            >(
                "Invalid value for idle_threshold_secs: "@ + decimal(n as nat)
                    + " is out of range 60–3600"@,
            ))
        }),
        updated(c, Ok(JsonDocumentView::Object(Seq::empty()))) == Ok::<UserConfigView, Seq<char>>(c),
        wish_of(c, Ok(JsonDocumentView::Object(Seq::empty()))) is None,
{
    lemma_keys();
    assert(fields.push(more).drop_last() =~= fields);
    assert(fields.push(more).last() == more);
}

// ---------------------------------------------------------------------------
// Exclusions
// ---------------------------------------------------------------------------

/// Processes that are never trimmed anyway and cannot be excluded.
pub open spec fn unexcludable_names() -> Seq<Seq<char>> {
    seq![
        "explorer.exe"@,
        "lsass.exe"@,
        "winlogon.exe"@,
        "csrss.exe"@,
        "svchost.exe"@,
        "dwm.exe"@,
        "wininit.exe"@,
        "services.exe"@,
        "smss.exe"@,
        "registry"@,
        "system"@,
        "secure system"@,
        "gingify.exe"@,
    ]
}

fn unexcludable() -> (r: Vec<&'static str>)
    ensures
        str_texts(r@) == unexcludable_names(),
{
    let mut r: Vec<&'static str> = Vec::new();
    r.push("explorer.exe");
    r.push("lsass.exe");
    r.push("winlogon.exe");
    r.push("csrss.exe");
    r.push("svchost.exe");
    r.push("dwm.exe");
    r.push("wininit.exe");
    r.push("services.exe");
    r.push("smss.exe");
    r.push("registry");
    r.push("system");
    r.push("secure system");
    r.push("gingify.exe");
    assert(str_texts(r@) =~= unexcludable_names());
    r
}

/// A list with a name at its end, unless it holds the name already.
pub open spec fn with_name(list: Seq<Seq<char>>, name: Seq<char>) -> Seq<Seq<char>> {
    if list.contains(name) {
        list
    } else {
        list.push(name)
    }
}

/// A list without a name.
pub open spec fn without_name(list: Seq<Seq<char>>, name: Seq<char>) -> Seq<Seq<char>>
    decreases list.len(),
{
    if list.len() == 0 {
        Seq::empty()
    } else if list.last() == name {
        without_name(list.drop_last(), name)
    } else {
        without_name(list.drop_last(), name).push(list.last())
    }
}

/// The settings once a process was excluded, or why it cannot be.
pub open spec fn with_exclusion(c: UserConfigView, name: Seq<char>) -> Result<
    UserConfigView,
    Seq<char>,
> {
    let lower = lowered(name);
    if unexcludable_names().contains(lower) {
        Err("Cannot exclude protected system process '"@ + lower + "'"@)
    } else {
        Ok(UserConfigView { excluded_processes: with_name(c.excluded_processes, lower), ..c })
    }
}

/// The settings once a process is no longer excluded.
pub open spec fn without_exclusion(c: UserConfigView, name: Seq<char>) -> UserConfigView {
    UserConfigView {
        excluded_processes: without_name(c.excluded_processes, lowered(name)),
        ..c
    }
}

/// Works out the settings with a process excluded. The name is kept in lower
/// case and once only; a protected process is refused.
pub fn add_exclusion(name: &str, state: &AppState) -> (r: Result<UserConfig, String>)
    ensures
        config_result_view(r) == with_exclusion(state@.config, name@),
{
    let normalised: String = to_lowercase(name);
    if is_one_of(normalised.as_str(), &unexcludable()) {
        return Err(
            concat3("Cannot exclude protected system process '", normalised.as_str(), "'"),
        );
    }
    let mut config: UserConfig = state.config.clone();
    if !list_contains(&config.excluded_processes, normalised.as_str()) {
        let ghost before = config.excluded_processes@;
        config.excluded_processes.push(normalised);
        assert(texts(config.excluded_processes@) =~= texts(before).push(normalised@));
    }
    Ok(config)
}

/// Works out the settings with a process no longer excluded.
pub fn remove_exclusion(name: &str, state: &AppState) -> (r: UserConfig)
    ensures
        r@ == without_exclusion(state@.config, name@),
{
    let normalised: String = to_lowercase(name);
    let mut config: UserConfig = state.config.clone();
    let ghost all = texts(config.excluded_processes@);
    let mut kept: Vec<String> = Vec::new();
    let mut i: usize = 0;
    assert(texts(kept@) =~= without_name(all.take(0), normalised@));
    while i < config.excluded_processes.len()
        invariant
            i <= config.excluded_processes@.len(),
            all == texts(config.excluded_processes@),
            texts(kept@) == without_name(all.take(i as int), normalised@),
        decreases config.excluded_processes@.len() - i,
    {
        assert(all.take(i + 1).drop_last() =~= all.take(i as int));
        assert(all.take(i + 1).last() == config.excluded_processes@[i as int]@);
        if !same_text(config.excluded_processes[i].as_str(), normalised.as_str()) {
            let ghost before = kept@;
            kept.push(config.excluded_processes[i].clone());
            assert(texts(kept@) =~= texts(before).push(config.excluded_processes@[i as int]@));
        }
        i = i + 1;
    }
    assert(all.take(i as int) =~= all);
    config.excluded_processes = kept;
    config
}

proof fn lemma_without_name(list: Seq<Seq<char>>, name: Seq<char>)
    ensures
        !without_name(list, name).contains(name),
        !list.contains(name) ==> without_name(list, name) == list,
    decreases list.len(),
{
    if list.len() > 0 {
        let front = list.drop_last();
        lemma_without_name(front, name);
        assert(list[list.len() - 1] == list.last());
        if list.last() != name {
            let rest = without_name(front, name);
            assert forall|i: int| 0 <= i < rest.len() + 1 implies rest.push(list.last())[i] != name by {
                if i < rest.len() {
                    assert(rest.contains(rest[i]));
                }
            }
            if !list.contains(name) {
                assert forall|i: int| 0 <= i < front.len() implies front[i] != name by {
                    assert(list[i] == front[i]);
                }
                assert(front.push(list.last()) =~= list);
            }
        }
    }
}

/// Any process can be excluded but those of the system itself and the application.
/// Its name joins the others in lower case, and nothing else changes.
pub proof fn excluding_adds_one_name(c: UserConfigView, name: Seq<char>)
    ensures
        ({
            let lower = lowered(name);
            let r = with_exclusion(c, name);
            &&& r is Err <==> lower == "explorer.exe"@ || lower == "lsass.exe"@ || lower
                == "winlogon.exe"@ || lower == "csrss.exe"@ || lower == "svchost.exe"@ || lower
                == "dwm.exe"@ || lower == "wininit.exe"@ || lower == "services.exe"@ || lower
                == "smss.exe"@ || lower == "registry"@ || lower == "system"@ || lower
                == "secure system"@ || lower == "gingify.exe"@
            &&& r matches Ok(after) ==> {
                &&& forall|x: Seq<char>| #[trigger]
                    after.excluded_processes.contains(x) <==> c.excluded_processes.contains(x) || x
                        == lower
                &&& c.excluded_processes.is_prefix_of(after.excluded_processes)
                &&& after.excluded_processes.len() == c.excluded_processes.len() + (
                if c.excluded_processes.contains(lower) {
                    0int
                } else {
                    1int
                })
                &&& after == (UserConfigView { excluded_processes: after.excluded_processes, ..c })
            }
        }),
{
    let lower = lowered(name);
    let all = unexcludable_names();
    assert(all[0] == "explorer.exe"@ && all[1] == "lsass.exe"@ && all[2] == "winlogon.exe"@);
    assert(all[3] == "csrss.exe"@ && all[4] == "svchost.exe"@ && all[5] == "dwm.exe"@);
    assert(all[6] == "wininit.exe"@ && all[7] == "services.exe"@ && all[8] == "smss.exe"@);
    assert(all[9] == "registry"@ && all[10] == "system"@ && all[11] == "secure system"@);
    assert(all[12] == "gingify.exe"@);
    assert(all.len() == 13);
    let list = c.excluded_processes;
    if let Ok(after) = with_exclusion(c, name) {
        let longer = after.excluded_processes;
        assert(longer.subrange(0, list.len() as int) =~= list);
        assert forall|x: Seq<char>| #[trigger] longer.contains(x) <==> list.contains(x) || x
            == lower by {
            if longer.contains(x) {
                let i = choose|i: int| 0 <= i < longer.len() && longer[i] == x;
                if i < list.len() {
                    assert(list[i] == x);
                }
            }
            if list.contains(x) {
                let i = choose|i: int| 0 <= i < list.len() && list[i] == x;
                assert(longer[i] == x);
            }
            if !list.contains(lower) {
                assert(longer[list.len() as int] == lower);
            }
        }
    }
}

/// Taking an exclusion back takes just that name out of the list, wherever it
/// stands, and changes nothing else; the other names keep their order.
pub proof fn removing_takes_one_name_out(c: UserConfigView, name: Seq<char>, more: Seq<char>)
    ensures
        ({
            let after = without_exclusion(c, name);
            let longer = UserConfigView {
                excluded_processes: c.excluded_processes.push(more),
                ..c
            };
            &&& forall|x: Seq<char>| #[trigger]
                after.excluded_processes.contains(x) <==> c.excluded_processes.contains(x) && x
                    != lowered(name)
            &&& after == (UserConfigView { excluded_processes: after.excluded_processes, ..c })
            &&& without_exclusion(longer, name).excluded_processes == (if more == lowered(name) {
                after.excluded_processes
            } else {
                after.excluded_processes.push(more)
            })
            &&& c.excluded_processes.len() == 0 ==> after.excluded_processes.len() == 0
        }),
{
    let list = c.excluded_processes;
    lemma_without_name_members(list, lowered(name));
    assert(list.push(more).drop_last() =~= list);
}

proof fn lemma_without_name_members(list: Seq<Seq<char>>, name: Seq<char>)
    ensures
        forall|x: Seq<char>| #[trigger]
            without_name(list, name).contains(x) <==> list.contains(x) && x != name,
    decreases list.len(),
{
    if list.len() > 0 {
        let front = list.drop_last();
        let last = list.last();
        lemma_without_name_members(front, name);
        let rest = without_name(front, name);
        let all = without_name(list, name);
        assert forall|x: Seq<char>| #[trigger] all.contains(x) <==> list.contains(x) && x
            != name by {
            if all.contains(x) {
                let i = choose|i: int| 0 <= i < all.len() && all[i] == x;
                if i < rest.len() {
                    assert(rest[i] == x);
                    assert(rest.contains(x));
                    let j = choose|j: int| 0 <= j < front.len() && front[j] == x;
                    assert(list[j] == x);
                } else {
                    assert(list[list.len() - 1] == x);
                }
            }
            if list.contains(x) && x != name {
                let j = choose|j: int| 0 <= j < list.len() && list[j] == x;
                if j < front.len() {
                    assert(front[j] == x);
                    assert(rest.contains(x));
                    let i = choose|i: int| 0 <= i < rest.len() && rest[i] == x;
                    assert(all[i] == x);
                } else {
                    assert(all[all.len() - 1] == x);
                }
            }
        }
    }
}

/// Excluding a process twice is the same as excluding it once.
pub proof fn excluding_is_idempotent(c: UserConfigView, name: Seq<char>)
    requires
        with_exclusion(c, name) is Ok,
    ensures
        with_exclusion(with_exclusion(c, name)->Ok_0, name) == with_exclusion(c, name),
{
    let lower = lowered(name);
    let list = c.excluded_processes;
    if !list.contains(lower) {
        assert(list.push(lower)[list.len() as int] == lower);
    }
}

/// A removed exclusion is gone, and removing one that was just added gives the
/// settings back as they were.
pub proof fn removing_undoes_excluding(c: UserConfigView, name: Seq<char>)
    ensures
        !without_exclusion(c, name).excluded_processes.contains(lowered(name)),
        with_exclusion(c, name) is Ok && !c.excluded_processes.contains(lowered(name))
            ==> without_exclusion(with_exclusion(c, name)->Ok_0, name) == c,
{
    let lower = lowered(name);
    let list = c.excluded_processes;
    lemma_without_name(list, lower);
    if !list.contains(lower) {
        assert(list.push(lower).drop_last() =~= list);
        assert(without_name(list.push(lower), lower) == list);
    }
}

/// A process that the user excluded is no longer trimmed, whatever the case of
/// its name. Lower-casing the name has to be final, as it is for every ASCII name.
pub proof fn an_excluded_process_is_spared(
    s: AppStateView,
    name: Seq<char>,
    list: Seq<ProcessEntry>,
    min_idle_secs: u64,
)
    requires
        lowered(lowered(name)) == lowered(name),
        with_exclusion(s.config, name) is Ok,
        is_trim_plan(
            list,
            (AppStateView { config: with_exclusion(s.config, name)->Ok_0, ..s }),
            min_idle_secs,
        ),
    ensures
        forall|i: int| 0 <= i < list.len() ==> lowered((#[trigger] list[i]).name@) != lowered(name),
{
    let after = AppStateView { config: with_exclusion(s.config, name)->Ok_0, ..s };
    let before = s.config.excluded_processes;
    let listed = after.config.excluded_processes;
    let lower = lowered(name);
    let k = if before.contains(lower) {
        choose|k: int| 0 <= k < before.len() && before[k] == lower
    } else {
        before.len() as int
    };
    assert(listed[k] == lower);
    assert(excluded_names(after)[k] == lower);
    a_plan_holds_no_spared_name(list, after, min_idle_secs, name);
}

// ---------------------------------------------------------------------------
// Other requests
// ---------------------------------------------------------------------------

/// Whether hard suspend works on this system, given what was found of what it
/// needs.
pub fn verify_suspend_capable(found: SuspenderLookup) -> (r: bool)
    ensures
        r == can_suspend(found),
{
    load_suspender(found).is_ok()
}

/// The notification shown once, after onboarding.
pub fn trigger_welcome_notification() -> (r: Toast)
    ensures
        r@ == toast_of(
            "Gingify"@,
            "Gingify is running. Click the tray icon anytime to see your RAM."@,
        ),
{
    notify_welcome()
}

// ---------------------------------------------------------------------------
// Starting with the user's session
// ---------------------------------------------------------------------------

/// The key that lists what starts with the user's session.
pub fn run_key() -> (r: String)
    ensures
        r@ == "Software\\Microsoft\\Windows\\CurrentVersion\\Run"@,
{
    "Software\\Microsoft\\Windows\\CurrentVersion\\Run".to_owned()
}

/// The name of the application's entry under that key.
pub fn run_value() -> (r: String)
    ensures
        r@ == "Gingify"@,
{
    "Gingify".to_owned()
}

/// How far a change of the start-up entry has come.
#[derive(Debug, Clone, Copy, PartialEq, Eq, Structural)]
pub enum StartupPhase {
    Start,
    Opening,
    LocatingExe,
    Writing,
    Closing,
    Returned,
}

/// What to do next.
#[derive(Debug, Clone, Copy, PartialEq, Eq, Structural)]
pub enum StartupAction {
    /// Open the key for writing.
    Open,
    /// Find out where the executable of the application is.
    LocateExe,
    /// Set the entry to that place.
    SetValue,
    /// Delete the entry; it may be missing.
    DeleteValue,
    /// Close the key.
    Close,
    /// Done.
    Return,
}

/// What came of the last action.
#[derive(Debug, Clone, Copy, PartialEq, Eq, Structural)]
pub enum StartupReply {
    /// It was carried out.
    Done,
    /// It failed.
    Failed,
}

/// What the machine makes of a reply: the next phase and the next action.
pub open spec fn startup_step(enabled: bool, phase: StartupPhase, reply: StartupReply) -> (
    StartupPhase,
    StartupAction,
) {
    match (phase, reply) {
        (StartupPhase::Start, _) => (StartupPhase::Opening, StartupAction::Open),
        (StartupPhase::Opening, StartupReply::Failed) => (
            StartupPhase::Returned,
            StartupAction::Return,
        ),
        (StartupPhase::Opening, StartupReply::Done) => if enabled {
            (StartupPhase::LocatingExe, StartupAction::LocateExe)
        } else {
            (StartupPhase::Writing, StartupAction::DeleteValue)
        },
        (StartupPhase::LocatingExe, StartupReply::Done) => (
            StartupPhase::Writing,
            StartupAction::SetValue,
        ),
        (StartupPhase::LocatingExe, StartupReply::Failed) => (
            StartupPhase::Closing,
            StartupAction::Close,
        ),
        (StartupPhase::Writing, _) => (StartupPhase::Closing, StartupAction::Close),
        (_, _) => (StartupPhase::Returned, StartupAction::Return),
    }
}

/// One step of making the application start with the user's session, or of
/// undoing that: takes what came of the last action and says what to do next.
pub fn apply_startup_registry(enabled: bool, phase: &mut StartupPhase, reply: StartupReply) -> (r:
    StartupAction)
    ensures
        (*final(phase), r) == startup_step(enabled, *old(phase), reply),
{
    let failed: bool = match reply {
        StartupReply::Failed => true,
        StartupReply::Done => false,
    };
    match *phase {
        StartupPhase::Start => {
            *phase = StartupPhase::Opening;
            StartupAction::Open
        },
        StartupPhase::Opening => {
            if failed {
                *phase = StartupPhase::Returned;
                StartupAction::Return
            } else if enabled {
                *phase = StartupPhase::LocatingExe;
                StartupAction::LocateExe
            } else {
                *phase = StartupPhase::Writing;
                StartupAction::DeleteValue
            }
        },
        StartupPhase::LocatingExe => {
            if failed {
                *phase = StartupPhase::Closing;
                StartupAction::Close
            } else {
                *phase = StartupPhase::Writing;
                StartupAction::SetValue
            }
        },
        StartupPhase::Writing => {
            *phase = StartupPhase::Closing;
            StartupAction::Close
        },
        _ => {
            *phase = StartupPhase::Returned;
            StartupAction::Return
        },
    }
}

/// How the operating system answers one change.
pub struct StartupAnswers {
    pub opened: bool,
    pub located: bool,
    pub written: bool,
}

/// The reply to the action that led into `phase`.
pub open spec fn startup_answer(phase: StartupPhase, answers: StartupAnswers) -> StartupReply {
    let done = match phase {
        StartupPhase::Opening => answers.opened,
        StartupPhase::LocatingExe => answers.located,
        StartupPhase::Writing => answers.written,
        _ => true,
    };
    if done {
        StartupReply::Done
    } else {
        StartupReply::Failed
    }
}

/// How many actions are left at most.
pub open spec fn startup_steps_left(phase: StartupPhase) -> nat {
    match phase {
        StartupPhase::Start => 5,
        StartupPhase::Opening => 4,
        StartupPhase::LocatingExe => 3,
        StartupPhase::Writing => 2,
        StartupPhase::Closing => 1,
        StartupPhase::Returned => 0,
    }
}

/// All actions of a change from `phase` on.
pub open spec fn startup_run(enabled: bool, phase: StartupPhase, answers: StartupAnswers) -> Seq<
    StartupAction,
>
    decreases startup_steps_left(phase),
{
    if phase is Returned {
        Seq::empty()
    } else {
        let (next, action) = startup_step(enabled, phase, startup_answer(phase, answers));
        seq![action] + startup_run(enabled, next, answers)
    }
}

/// However the operating system answers, a change ends, a key that was opened is
/// closed, and the entry is set or deleted as wished where that is possible.
pub proof fn a_startup_change_ends_and_closes(enabled: bool, answers: StartupAnswers)
    ensures
        ({
            let run = startup_run(enabled, StartupPhase::Start, answers);
            &&& run.last() == StartupAction::Return
            &&& run.contains(StartupAction::Close) <==> answers.opened
            &&& run.contains(StartupAction::SetValue) <==> enabled && answers.opened
                && answers.located
            &&& run.contains(StartupAction::DeleteValue) <==> !enabled && answers.opened
        }),
{
    reveal_with_fuel(startup_run, 6);
    let run = startup_run(enabled, StartupPhase::Start, answers);
    assert(run[0] == StartupAction::Open);
    if !answers.opened {
        assert(run.len() == 2);
    } else if !enabled {
        assert(run[1] == StartupAction::DeleteValue);
        assert(run[2] == StartupAction::Close);
        assert(run.len() == 4);
    } else if answers.located {
        assert(run[1] == StartupAction::LocateExe);
        assert(run[2] == StartupAction::SetValue);
        assert(run[3] == StartupAction::Close);
        assert(run.len() == 5);
    } else {
        assert(run[1] == StartupAction::LocateExe);
        assert(run[2] == StartupAction::Close);
        assert(run.len() == 4);
    }
}

/// A change of the start-up entry opens the key first and closes it behind whatever it
/// does to the entry.
pub proof fn a_startup_change_takes_its_steps(enabled: bool, answers: StartupAnswers)
    ensures
        ({
            let run = startup_run(enabled, StartupPhase::Start, answers);
            &&& !answers.opened ==> run == seq![
                StartupAction::Open,
                StartupAction::Return,
            ]
            &&& answers.opened && !enabled ==> run == seq![
                StartupAction::Open,
                StartupAction::DeleteValue,
                StartupAction::Close,
                StartupAction::Return,
            ]
            &&& answers.opened && enabled && answers.located ==> run == seq![
                StartupAction::Open,
                StartupAction::LocateExe,
                StartupAction::SetValue,
                StartupAction::Close,
                StartupAction::Return,
            ]
            &&& answers.opened && enabled && !answers.located ==> run == seq![
                StartupAction::Open,
                StartupAction::LocateExe,
                StartupAction::Close,
                StartupAction::Return,
            ]
        }),
{
    reveal_with_fuel(startup_run, 6);
    let run = startup_run(enabled, StartupPhase::Start, answers);
    if !answers.opened {
        assert(run =~= seq![
            StartupAction::Open,
            StartupAction::Return,
        ]);
    }
    if answers.opened && !enabled {
        assert(run =~= seq![
            StartupAction::Open,
            StartupAction::DeleteValue,
            StartupAction::Close,
            StartupAction::Return,
        ]);
    }
    if answers.opened && enabled && answers.located {
        assert(run =~= seq![
            StartupAction::Open,
            StartupAction::LocateExe,
            StartupAction::SetValue,
            StartupAction::Close,
            StartupAction::Return,
        ]);
    }
    if answers.opened && enabled && !answers.located {
        assert(run =~= seq![
            StartupAction::Open,
            StartupAction::LocateExe,
            StartupAction::Close,
            StartupAction::Return,
        ]);
    }
}

} // verus!
