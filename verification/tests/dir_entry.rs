use fde::winpath::{make_absolute, path_display_split, path_file_name, starts_with_dash, strip_current_dir};

#[test]
fn dash_prefixed_paths_detected() {
    assert!(starts_with_dash("-rf"));
    assert!(starts_with_dash("--delete"));
    assert!(starts_with_dash("-"));
}

#[test]
fn safe_paths_not_flagged() {
    assert!(!starts_with_dash("foo"));
    assert!(!starts_with_dash("./foo"));
    assert!(!starts_with_dash("sub/-rf"));
    assert!(!starts_with_dash(""));
    assert!(!starts_with_dash(" -rf"));
}

#[test]
fn strip_current_dir_keeps_dash_names_prefixed() {
    assert_eq!(strip_current_dir("./foo"), "foo");
    assert_eq!(strip_current_dir("./-rf"), "./-rf");
    assert_eq!(strip_current_dir("sub/x"), "sub/x");
}

#[test]
fn make_absolute_keeps_absolute_paths() {
    assert_eq!(make_absolute(r"D:\data\x.txt", r"C:\work"), r"D:\data\x.txt");
}

#[test]
fn make_absolute_joins_relative_paths_below_cwd() {
    assert_eq!(make_absolute(r".\src\lib.rs", r"C:\work"), r"C:\work\src\lib.rs");
    assert_eq!(make_absolute("src/lib.rs", r"C:\work\"), r"C:\work\src/lib.rs");
    assert_eq!(make_absolute(".foo", r"C:\work"), r"C:\work\.foo");
}

#[test]
fn display_split_cuts_after_parent_and_its_separators() {
    assert_eq!(
        path_display_split(r"C:\repo\src\main.rs"),
        (r"C:\repo\src\".to_string(), "main.rs".to_string())
    );
    assert_eq!(path_display_split("a//b"), ("a//".to_string(), "b".to_string()));
    assert_eq!(path_display_split("main.rs"), (String::new(), "main.rs".to_string()));
    assert_eq!(path_display_split(""), (String::new(), String::new()));
}

#[test]
fn a_bare_drive_has_no_file_name() {
    assert_eq!(path_file_name(r"C:\"), None);
    assert_eq!(path_file_name("C:"), None);
    assert_eq!(path_file_name(r"C:\a"), Some("a".to_string()));
    assert_eq!(path_file_name(r"C:\a\.."), None);
}
