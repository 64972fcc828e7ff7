use fde::scan::backend::everything::backend::{
    build_search_string, classify_is_dir, depth_under_root, FILE_ATTRIBUTE_REPARSE_POINT,
};
use fde::scan::backend::everything::error::EverythingError;
use fde::scan::backend::everything::ffi::{sys, to_utf16_nul};
use fde::scan::backend::everything::probe::build_probe_query;
use fde::scan::backend::{BackendQuery, CaseModifier, PatternScope, TranslatedPattern};

fn pattern(q: &str, scope: PatternScope) -> TranslatedPattern {
    TranslatedPattern {
        everything_query: q.to_string(),
        scope,
        case_modifier: CaseModifier::Nocase,
    }
}

fn base_query() -> BackendQuery {
    BackendQuery {
        paths: vec![r"C:\repo".to_string()],
        pattern: pattern("regex:foo", PatternScope::Basename),
        and_patterns: vec![],
        type_hint: None,
        size_hint: None,
        time_hint: None,
        max_depth: None,
        max_results: None,
    }
}

#[test]
fn search_string_always_pins_case_modifier() {
    let q = base_query();
    let s = build_search_string(&q, &q.paths[0]);
    assert!(
        s.starts_with("nocase:") || s.starts_with("case:"),
        "search must start with explicit case modifier; got {s}"
    );
}

#[test]
fn pattern_scope_emits_inline_modifier() {
    let mut q = base_query();
    q.pattern = pattern("regex:foo", PatternScope::Basename);
    assert!(build_search_string(&q, &q.paths[0]).contains("nopath:regex:foo"));

    q.pattern = pattern("regex:foo", PatternScope::FullPath);
    let s = build_search_string(&q, &q.paths[0]);
    assert!(s.contains("path:regex:foo"));
    assert!(s.contains(r#"path:"C:\repo""#));
}

#[test]
fn search_string_embeds_root_in_quotes() {
    let q = base_query();
    let s = build_search_string(&q, r"C:\repo\sub");
    assert!(
        s.contains(r#"path:"C:\repo\sub""#),
        "search must end with path:\"<root>\"; got {s}"
    );
}

#[test]
fn and_patterns_append_with_own_scope() {
    let mut q = base_query();
    q.and_patterns = vec![
        pattern("regex:bar", PatternScope::Basename),
        pattern("regex:baz", PatternScope::FullPath),
    ];
    let s = build_search_string(&q, &q.paths[0]);
    assert!(s.contains("nopath:regex:foo"));
    assert!(s.contains("nopath:regex:bar"));
    assert!(s.contains("path:regex:baz"));
}

#[test]
fn depth_under_root_matches_ignore_walker_semantics() {
    let root = r"C:\repo";
    assert_eq!(depth_under_root(root, root), 0);
    assert_eq!(depth_under_root(r"C:\repo\a.txt", root), 1);
    assert_eq!(depth_under_root(r"C:\repo\src\foo\b.txt", root), 3);
}

#[test]
fn depth_under_root_falls_back_to_zero_when_not_a_prefix() {
    let root = r"C:\repo";
    assert_eq!(depth_under_root(r"D:\other\x", root), 0);
}

#[test]
fn directory_symlink_is_classified_as_symlink_not_folder() {
    let attrs = 0x10 | FILE_ATTRIBUTE_REPARSE_POINT;
    assert!(
        !classify_is_dir(true, attrs),
        "reparse-point folder must not be RawHit.is_dir"
    );
    assert!(classify_is_dir(true, 0x10));
    assert!(!classify_is_dir(false, FILE_ATTRIBUTE_REPARSE_POINT));
}

#[test]
fn search_string_quotes_paths_containing_spaces() {
    let mut q = base_query();
    q.paths = vec![r"C:\Program Files".to_string()];
    let s = build_search_string(&q, &q.paths[0]);
    assert!(s.contains(r#"path:"C:\Program Files""#), "got {s}");
}

#[test]
fn ipc_error_carries_actionable_hint() {
    let msg = EverythingError::Ipc.message();
    assert!(
        msg.contains("start Everything"),
        "IPC error message must tell the user to start Everything; got: {msg}"
    );
}

#[test]
fn programmer_error_variants_do_not_trigger_fallback() {
    for v in [
        EverythingError::InvalidIndex,
        EverythingError::InvalidCall,
        EverythingError::InvalidRequest,
        EverythingError::InvalidParameter,
        EverythingError::Memory,
    ] {
        assert!(!v.is_unavailable(), "{v:?} must not trigger fallback");
    }
}

#[test]
fn unavailable_variants_trigger_fallback() {
    assert!(EverythingError::Ipc.is_unavailable());
    assert!(EverythingError::RegisterClassEx.is_unavailable());
    assert!(EverythingError::CreateWindow.is_unavailable());
    assert!(EverythingError::CreateThread.is_unavailable());
}

#[test]
fn required_request_flags_are_in_scope() {
    let _flags = sys::EVERYTHING_REQUEST_FILE_NAME
        | sys::EVERYTHING_REQUEST_PATH
        | sys::EVERYTHING_REQUEST_FULL_PATH_AND_FILE_NAME
        | sys::EVERYTHING_REQUEST_ATTRIBUTES
        | sys::EVERYTHING_REQUEST_SIZE
        | sys::EVERYTHING_REQUEST_DATE_MODIFIED
        | sys::EVERYTHING_REQUEST_DATE_CREATED
        | sys::EVERYTHING_REQUEST_EXTENSION;
}

#[test]
fn to_utf16_nul_terminates() {
    let v = to_utf16_nul("ab");
    assert_eq!(v, vec![0x61, 0x62, 0x00]);
}

#[test]
fn probe_query_quotes_the_root() {
    let q = build_probe_query(r"C:\Program Files\foo");
    assert_eq!(q, r#"path:"C:\Program Files\foo""#);
}

#[test]
fn probe_query_strips_inner_quotes() {
    let q = build_probe_query(r#"C:\weird"name"#);
    assert_eq!(q, r#"path:"C:\weirdname""#);
}

#[test]
fn probe_query_normalizes_forward_slashes_on_windows() {
    let q = build_probe_query("D:/repo/sub");
    assert_eq!(q, r#"path:"D:\repo\sub""#);
}

#[test]
fn search_string_normalizes_root_slashes_like_the_probe() {
    let q = base_query();
    let s = build_search_string(&q, "D:/repo/sub");
    assert!(s.ends_with(r#"path:"D:\repo\sub""#), "got {s}");
}
