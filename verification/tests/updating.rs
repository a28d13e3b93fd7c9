use gingify::engine::updater::{
    check_for_update, check_release, read_release, release_url, undecodable, update_notice, user_agent, verdict,
    Release, UpdateError, UpdateInfo,
};
use gingify::json::{JsonDocument, JsonField, JsonValue};

fn text(key: &str, value: &str) -> JsonField {
    JsonField { key: key.to_string(), value: JsonValue::Text(value.to_string()) }
}

fn notice(tag: &str) -> JsonDocument {
    JsonDocument::Object(vec![text("html_url", "https://example.org/r"), text("tag_name", tag)])
}

fn update(tag: &str, current: &str) -> Option<String> {
    check_release(&notice(tag), current).unwrap().map(|info| info.version)
}

#[test]
fn a_newer_version_is_an_update() {
    assert_eq!(update("v1.0.1", "1.0.0"), Some("1.0.1".to_string()));
    assert_eq!(update("v1.10.0", "1.9.9"), Some("1.10.0".to_string()));
    assert_eq!(update("2.0.0", "1.99.99"), Some("2.0.0".to_string()));
    assert_eq!(update("v1.0.0", "1.0.0-beta.1"), Some("1.0.0".to_string()));
}

#[test]
fn the_same_or_an_older_version_is_none() {
    assert_eq!(update("v1.0.0", "1.0.0"), None);
    assert_eq!(update("v0.9.9", "1.0.0"), None);
    assert_eq!(update("vv1.0.0-rc.1", "1.0.0"), None);
}

#[test]
fn versions_that_are_none_are_errors() {
    let e = check_release(&notice("vlatest"), "1.0.0").unwrap_err();
    assert!(matches!(&e, UpdateError::VersionParse(v, _) if v == "latest"));
    assert!(e.message().starts_with("Failed to parse remote version 'latest': "));
    let e = check_release(&notice("v1.0.1"), "1.0").unwrap_err();
    assert!(matches!(&e, UpdateError::CurrentVersionParse(v, _) if v == "1.0"));
    assert!(e.message().starts_with("Failed to parse current version '1.0': "));
}

#[test]
fn a_notice_without_a_tag_is_an_error() {
    let empty = JsonDocument::Object(vec![text("name", "x")]);
    let e = check_release(&empty, "1.0.0").unwrap_err();
    assert_eq!(e, UpdateError::MissingField("tag_name".to_string()));
    assert_eq!(e.message(), "GitHub API response missing expected field: tag_name");
    assert!(read_release(&JsonDocument::Other).is_err());
    let number = JsonDocument::Object(vec![JsonField {
        key: "tag_name".to_string(),
        value: JsonValue::Unsigned(1),
    }]);
    assert!(read_release(&number).is_err());
}

#[test]
fn a_notice_without_a_page_leads_to_the_site() {
    let release = read_release(&JsonDocument::Object(vec![text("tag_name", "v3.0.0")])).unwrap();
    assert_eq!(release.download_url, "https://github.com");
    assert_eq!(release.version, "3.0.0");
    assert_eq!(read_release(&notice("v1.2.3")).unwrap().download_url, "https://example.org/r");
}

#[test]
fn a_verdict_reports_the_remote_error_first() {
    let release = || Release { version: "a".to_string(), download_url: "u".to_string() };
    let both = verdict(release(), "b", Some("x".to_string()), Some("y".to_string()), true);
    assert_eq!(both, Err(UpdateError::VersionParse("a".to_string(), "x".to_string())));
    let own = verdict(release(), "b", None, Some("y".to_string()), true);
    assert_eq!(own, Err(UpdateError::CurrentVersionParse("b".to_string(), "y".to_string())));
    let newer = verdict(release(), "b", None, None, true).unwrap().unwrap();
    assert_eq!(newer, UpdateInfo { version: "a".to_string(), download_url: "u".to_string() });
    assert_eq!(verdict(release(), "b", None, None, false), Ok(None));
}

#[test]
fn the_answer_of_the_site_is_read() {
    let body = r#"{"tag_name": "v1.1.0", "html_url": "https://example.org/1.1.0", "assets": []}"#;
    let info = check_for_update(body, "1.0.0").unwrap().unwrap();
    assert_eq!(info.version, "1.1.0");
    assert_eq!(info.download_url, "https://example.org/1.1.0");
    assert_eq!(check_for_update(body, "1.1.0"), Ok(None));
    let refused = check_for_update("<html>", "1.0.0").unwrap_err();
    assert_eq!(refused, UpdateError::Network("error decoding response body".to_string()));
    assert_eq!(refused, undecodable());
    assert!(check_for_update("[]", "1.0.0").is_err());
}

#[test]
fn network_errors_have_their_text() {
    assert_eq!(UpdateError::Network("offline".to_string()).message(), "Network request failed: offline");
    assert_eq!(release_url(), "https://api.github.com/repos/IshekKhal/gingify/releases/latest");
    assert_eq!(user_agent("1.0.0"), "Gingify/1.0.0");
}

#[test]
fn the_user_is_told_of_updates() {
    let info = UpdateInfo { version: "2.0.0".to_string(), download_url: "u".to_string() };
    let toast = update_notice(&Ok(Some(info)), false).unwrap();
    assert_eq!(toast.title, "Gingify Update");
    assert_eq!(toast.body, "v2.0.0 is available — right-click tray to update");
    assert!(update_notice(&Ok(None), false).is_none());
    assert_eq!(update_notice(&Ok(None), true).unwrap().body, "You're on the latest version.");
    assert!(update_notice(&Err(UpdateError::MissingField("x".to_string())), true).is_none());
}
