use fde::scan::backend::{
    BackendError, BackendQuery, BackendSink, CancellationToken, CaseModifier, PatternScope, RawHit,
    SearchBackend, TranslatedPattern,
};
use fde::scan::mock_injection::MockHitFileBackend;

fn dummy_query(root: &str) -> BackendQuery {
    BackendQuery {
        paths: vec![root.to_string()],
        pattern: TranslatedPattern {
            everything_query: String::new(),
            scope: PatternScope::Basename,
            case_modifier: CaseModifier::Nocase,
        },
        and_patterns: vec![],
        type_hint: None,
        size_hint: None,
        time_hint: None,
        max_depth: None,
        max_results: None,
    }
}

struct VecSink(Vec<RawHit>);
impl BackendSink for VecSink {
    fn send(&mut self, hit: RawHit) -> Result<(), BackendError> {
        self.0.push(hit);
        Ok(())
    }
}

#[test]
fn parser_handles_blank_lines_comments_and_kinds() {
    let body = "\
# header comment
C:\\repo\\a.txt
C:\\repo\\sub\tdir

C:\\repo\\b.log\tfile
# trailing comment
";
    let backend = MockHitFileBackend::from_text("X".to_string(), body).unwrap();
    assert_eq!(backend.hits.len(), 3);
    assert_eq!(backend.hits[0].path, r"C:\repo\a.txt");
    assert!(!backend.hits[0].is_dir);
    assert_eq!(backend.hits[1].path, r"C:\repo\sub");
    assert!(backend.hits[1].is_dir);
    assert!(!backend.hits[2].is_dir);
}

#[test]
fn run_stamps_hits_with_query_search_root() {
    let body = "C:\\repo\\a.txt\nC:\\repo\\b.txt\n";
    let backend = MockHitFileBackend::from_text("X".to_string(), body).unwrap();
    let q = dummy_query(r"C:\repo");
    let mut sink = VecSink(Vec::new());
    let cancel = CancellationToken::new();
    backend.run(&q, &mut sink, &cancel).unwrap();
    assert_eq!(sink.0.len(), 2);
    for hit in &sink.0 {
        assert_eq!(hit.search_root, r"C:\repo");
    }
}

#[test]
fn run_honours_cancellation_token() {
    let body = "a\nb\nc\n";
    let backend = MockHitFileBackend::from_text("X".to_string(), body).unwrap();
    let q = dummy_query(r"C:\");
    let cancel = CancellationToken::new();
    cancel.cancel();
    let mut sink = VecSink(Vec::new());
    let err = backend
        .run(&q, &mut sink, &cancel)
        .expect_err("cancel must surface");
    assert!(matches!(err, BackendError::Cancelled));
    assert!(sink.0.is_empty());
}

#[test]
fn parser_rejects_unknown_kind_token() {
    let err = MockHitFileBackend::from_text("X".to_string(), "a\tdr\n")
        .err()
        .expect("unknown kind must error");
    assert!(
        err.contains("dr"),
        "error message must echo the bad token: {err}"
    );
}

#[test]
fn parser_error_names_source_and_line() {
    let err = MockHitFileBackend::from_text("fixture.txt".to_string(), "# c\nok\nb\tfolder\n")
        .err()
        .expect("unknown kind must error");
    assert_eq!(err, "unknown kind \"folder\" at fixture.txt:3; expected `dir` or `file`");
}

#[test]
fn run_fills_extension_and_depth_and_falls_back_to_source_root() {
    let body = "C:\\repo\\lib.rs\r\nC:\\repo\\Makefile\tfile\textra\n";
    let backend = MockHitFileBackend::from_text("SRC".to_string(), body).unwrap();
    let mut q = dummy_query(r"C:\repo");
    q.paths.clear();
    let mut sink = VecSink(Vec::new());
    backend.run(&q, &mut sink, &CancellationToken::new()).unwrap();
    assert_eq!(sink.0.len(), 2);
    assert_eq!(sink.0[0].path, r"C:\repo\lib.rs");
    assert_eq!(sink.0[0].extension, "rs");
    assert_eq!(sink.0[0].depth, 1);
    assert_eq!(sink.0[1].extension, "");
    assert_eq!(sink.0[1].search_root, "SRC");
}
