use rnas::sanitize::{sanitize_string, sanitize_file_name};
use rnas::ops::create_directory_name;

const WL: &str = "abcdefghijklmnopqrstuvwxyzABCDEFGHIJKLMNOPQRSTUVWXYZ0123456789 ._-";

#[test]
fn whitelist_filter_keeps_order() {
    // characters outside the whitelist drop out; nothing is reordered
    assert_eq!(sanitize_string("My:Folder?", WL, 64), "MyFolder");
    assert_eq!(sanitize_string("a/b\\c", WL, 64), "abc");
}

#[test]
fn create_directory_name_filters_like_the_sanitizer() {
    assert_eq!(create_directory_name("My:Folder?", WL, 64), "MyFolder");
}

#[test]
fn create_directory_name_defaults_when_empty() {
    assert_eq!(create_directory_name("???", WL, 64), "new_directory");
    assert_eq!(create_directory_name("", WL, 64), "new_directory");
    assert_eq!(create_directory_name("   ", WL, 64), "new_directory");
}

#[test]
fn trims_leading_spaces_and_trailing_spaces_and_dots() {
    assert_eq!(sanitize_string("  notes", WL, 64), "notes");
    assert_eq!(sanitize_string("notes...  ", WL, 64), "notes");
    assert_eq!(sanitize_string(" a.b. ", WL, 64), "a.b");
}

#[test]
fn file_names_keep_trailing_dots() {
    assert_eq!(sanitize_file_name("report.pdf.", WL, 64), "report.pdf.");
    assert_eq!(sanitize_file_name("  report.pdf  ", WL, 64), "report.pdf");
}

#[test]
fn over_long_names_keep_the_trailing_characters() {
    assert_eq!(sanitize_string("abcdefgh", WL, 5), "defgh");
    assert_eq!(sanitize_file_name("abcdefgh", WL, 3), "fgh");
}

#[test]
fn length_is_bounded_by_the_maximum() {
    let out = sanitize_string("a long directory name", WL, 7);
    assert!(out.chars().count() <= 7);
    let out = sanitize_string("short", WL, 0);
    assert_eq!(out, "");
}

#[test]
fn sanitizing_twice_equals_sanitizing_once() {
    for raw in ["  My:Folder?.. ", "notes...", "x", "", "a b c", "..hidden"] {
        let once = sanitize_string(raw, WL, 64);
        let twice = sanitize_string(&once, WL, 64);
        assert_eq!(twice, once);
    }
}

#[test]
fn truncation_can_expose_a_leading_space() {
    // the one shape on which a second pass differs: the length bound cuts
    // the kept tail just before a space, which the second pass then trims
    let once = sanitize_string("a a", "a ", 2);
    assert_eq!(once, " a");
    let twice = sanitize_string(&once, "a ", 2);
    assert_eq!(twice, "a");
}
