use gingify::text::{
    concat2, concat3, contains, decimal_text, from_chars, is_one_of, join, last_component,
    list_contains, lowercase_all, same_text, starts_with, status_text, to_chars, trim_leading,
};

fn strings(list: &[&str]) -> Vec<String> {
    list.iter().map(|s| s.to_string()).collect()
}

#[test]
fn lower_casing_covers_ascii_and_other_letters() {
    let lower = lowercase_all(&strings(&["Chrome.EXE", "ÄRGER.exe", "123_-"]));
    assert_eq!(lower, strings(&["chrome.exe", "ärger.exe", "123_-"]));
}

#[test]
fn texts_are_compared_in_full() {
    assert!(same_text("Work", "Work"));
    assert!(!same_text("Work", "work"));
    assert!(list_contains(&strings(&["a", "b"]), "b"));
    assert!(!list_contains(&strings(&["a", "b"]), "c"));
    assert!(is_one_of("x", &vec!["y", "x"]));
    assert!(!is_one_of("z", &vec!["y", "x"]));
}

#[test]
fn parts_are_found_where_they_stand() {
    assert!(starts_with("c:\\windows\\system32", "c:\\windows\\"));
    assert!(!starts_with("d:\\windows\\", "c:\\windows\\"));
    assert!(starts_with("abc", ""));
    assert!(!starts_with("ab", "abc"));
    assert!(contains("abcabd", "abd"));
    assert!(contains("abc", ""));
    assert!(!contains("abc", "cb"));
}

#[test]
fn leading_characters_are_dropped_one_and_all() {
    assert_eq!(trim_leading("v1.2.0", 'v'), "1.2.0");
    assert_eq!(trim_leading("vv1v", 'v'), "1v");
    assert_eq!(trim_leading("1.0", 'v'), "1.0");
    assert_eq!(trim_leading("vvv", 'v'), "");
}

#[test]
fn the_last_component_of_a_path_is_the_name() {
    assert_eq!(last_component("\\Device\\Disk\\app.exe", '\\'), "app.exe");
    assert_eq!(last_component("Registry", '\\'), "Registry");
    assert_eq!(last_component("dir\\", '\\'), "");
}

#[test]
fn numbers_are_written_without_leading_zeros() {
    assert_eq!(decimal_text(0), "0");
    assert_eq!(decimal_text(1080), "1080");
    assert_eq!(decimal_text(u64::MAX), "18446744073709551615");
    assert_eq!(status_text(0), "0x0");
    assert_eq!(status_text(-1073741790), format!("{:#x}", -1073741790i32));
    assert_eq!(status_text(i32::MIN), "0x80000000");
}

#[test]
fn texts_are_joined_and_split() {
    assert_eq!(join(&strings(&[]), "; "), "");
    assert_eq!(join(&strings(&["a"]), "; "), "a");
    assert_eq!(join(&strings(&["a", "b", "c"]), "; "), "a; b; c");
    assert_eq!(concat2("a", "b"), "ab");
    assert_eq!(concat3("a", "b", "c"), "abc");
    assert_eq!(from_chars(&to_chars("häß")), "häß");
}
