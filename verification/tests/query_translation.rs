use fde::scan::backend::everything::query::unsupported::{scan_ast, RegexNode, MAX_AST_DEPTH};
use fde::filetypes::FileTypes;
use fde::filter::{SizeFilter, TimeFilter, UnixTime};
use fde::scan::backend::everything::query::glob::{translate_glob, GlobResult};
use fde::scan::backend::everything::query::literal::{translate_fixed_string, LiteralResult};
use fde::scan::backend::everything::query::{
    check_regex_pattern, input_times_fit, translate, GiveUpReason, RejectReason, TranslationInput,
};
use fde::scan::backend::{CaseModifier, EntryTypeHint, PatternScope};

fn frag(g: GlobResult) -> String {
    match g {
        GlobResult::Fragment(f) => f,
        GlobResult::GiveUp => panic!("expected Fragment, got GiveUp"),
    }
}

#[test]
fn plain_extension_glob_passes_through() {
    assert_eq!(frag(translate_glob("*.rs")), "*.rs");
}

#[test]
fn recursive_marker_is_stripped() {
    assert_eq!(frag(translate_glob("**/*.rs")), "*.rs");
    assert_eq!(frag(translate_glob("src/**/*.rs")), "src/*.rs");
}

#[test]
fn brace_expansion_uses_pipe() {
    assert_eq!(frag(translate_glob("*.{rs,toml}")), "*.rs|*.toml");
}

#[test]
fn negation_prefix_gives_up() {
    assert!(matches!(translate_glob("!*.rs"), GlobResult::GiveUp));
}

#[test]
fn unicode_class_range_gives_up() {
    assert!(matches!(translate_glob("[α-ω]*"), GlobResult::GiveUp));
}

#[test]
fn nested_braces_give_up() {
    assert!(matches!(translate_glob("{a,{b,c}}"), GlobResult::GiveUp));
}

#[test]
fn ascii_class_passes_through() {
    assert_eq!(frag(translate_glob("[abc]*")), "[abc]*");
}

fn term_of(r: LiteralResult) -> String {
    match r {
        LiteralResult::Term(t) => t,
        LiteralResult::GiveUp => panic!("expected Term, got GiveUp"),
    }
}

fn is_giveup(r: LiteralResult) -> bool {
    matches!(r, LiteralResult::GiveUp)
}

#[test]
fn alphanumeric_literal_is_phrase_quoted() {
    assert_eq!(term_of(translate_fixed_string("foo")), "\"foo\"");
}

#[test]
fn space_containing_literal_is_phrase_quoted() {
    assert_eq!(
        term_of(translate_fixed_string("hello world")),
        "\"hello world\""
    );
}

#[test]
fn modifier_chars_survive_inside_phrase() {
    for s in ["a|b", "a!b", "a<b", "a>b", "key:value"] {
        assert_eq!(
            term_of(translate_fixed_string(s)),
            format!("\"{s}\""),
            "rule-2 metachar {s} should phrase-quote"
        );
    }
}

#[test]
fn literal_with_quote_gives_up() {
    assert!(is_giveup(translate_fixed_string("foo\"bar")));
}

#[test]
fn literal_with_backslash_gives_up() {
    assert!(is_giveup(translate_fixed_string(r"foo\bar")));
}

#[test]
fn literal_with_wildcards_gives_up() {
    assert!(is_giveup(translate_fixed_string("foo*bar")));
    assert!(is_giveup(translate_fixed_string("foo?bar")));
}

#[test]
fn empty_literal_maps_to_empty_term() {
    assert_eq!(term_of(translate_fixed_string("")), "");
}

fn input_for(pattern: &str) -> TranslationInput<'_> {
    TranslationInput {
        pattern,
        glob: false,
        fixed_strings: false,
        exact: false,
        and_patterns: &[],
        full_path: false,
        case_sensitive: false,
        file_types: None,
        extensions: &[],
        size_filters: &[],
        time_filters: &[],
        max_depth: None,
        max_results: None,
    }
}

fn root() -> Vec<String> {
    vec![r"C:\repo".to_string()]
}

#[test]
fn default_branch_is_regex() {
    let q = translate(&input_for("foo"), root()).unwrap();
    assert_eq!(q.pattern.everything_query, "regex:\"foo\"");
    assert_eq!(q.pattern.scope, PatternScope::Basename);
    assert_eq!(q.pattern.case_modifier, CaseModifier::Nocase);
}

#[test]
fn glob_branch_emits_wildcards() {
    let mut input = input_for("**/*.rs");
    input.glob = true;
    let q = translate(&input, root()).unwrap();
    assert_eq!(q.pattern.everything_query, "wildcards:*.rs");
}

#[test]
fn fixed_strings_branch_phrase_quotes() {
    let mut input = input_for("hello world");
    input.fixed_strings = true;
    let q = translate(&input, root()).unwrap();
    assert_eq!(q.pattern.everything_query, "\"hello world\"");
}

#[test]
fn exact_branch_anchors_with_regex_meta_escaped() {
    let mut input = input_for("foo.bar");
    input.exact = true;
    let q = translate(&input, root()).unwrap();
    assert_eq!(q.pattern.everything_query, r#"regex:"^foo\.bar$""#);
}

#[test]
fn regex_alternation_is_quoted_for_everything_query_parser() {
    let q = translate(&input_for(r"^(d|f)xc\.exe$"), root()).unwrap();
    assert_eq!(q.pattern.everything_query, r#"regex:"^(d|f)xc\.exe$""#);
}

#[test]
fn case_modifier_reflects_input() {
    let mut input = input_for("foo");
    input.case_sensitive = true;
    let q = translate(&input, root()).unwrap();
    assert_eq!(q.pattern.case_modifier, CaseModifier::Case);
}

#[test]
fn full_path_flips_scope() {
    let mut input = input_for("foo");
    input.full_path = true;
    let q = translate(&input, root()).unwrap();
    assert_eq!(q.pattern.scope, PatternScope::FullPath);
}

#[test]
fn and_patterns_round_trip() {
    let extras = vec!["bar".to_string(), "baz".to_string()];
    let mut input = input_for("foo");
    input.and_patterns = &extras;
    let q = translate(&input, root()).unwrap();
    assert_eq!(q.and_patterns.len(), 2);
    assert_eq!(q.and_patterns[0].everything_query, "regex:\"bar\"");
    assert_eq!(q.and_patterns[1].everything_query, "regex:\"baz\"");
}

#[test]
fn unsupported_and_pattern_gives_up_whole_query() {
    let extras = vec![r"\p{Greek}".to_string()];
    let mut input = input_for("foo");
    input.and_patterns = &extras;
    let err = translate(&input, root()).unwrap_err();
    assert!(matches!(
        err.reason,
        GiveUpReason::Regex(RejectReason::UnicodeProperty)
    ));
}

#[test]
fn primary_pattern_rule1_rejection_propagates() {
    let err = translate(&input_for(r"\p{Greek}"), root()).unwrap_err();
    assert!(matches!(
        err.reason,
        GiveUpReason::Regex(RejectReason::UnicodeProperty)
    ));
}

#[test]
fn fixed_strings_with_quote_gives_up() {
    let mut input = input_for("a\"b");
    input.fixed_strings = true;
    let err = translate(&input, root()).unwrap_err();
    assert_eq!(err.reason, GiveUpReason::Literal);
}

#[test]
fn type_hint_only_for_pure_file_or_dir() {
    let mut input = input_for("foo");
    let files = FileTypes {
        files: true,
        ..Default::default()
    };
    input.file_types = Some(&files);
    assert_eq!(
        translate(&input, root()).unwrap().type_hint,
        Some(EntryTypeHint::File)
    );

    let exec = FileTypes {
        files: true,
        executables_only: true,
        ..Default::default()
    };
    input.file_types = Some(&exec);
    assert_eq!(translate(&input, root()).unwrap().type_hint, None);
}

#[test]
fn size_hints_merge_to_tightest_bounds() {
    let mut input = input_for("foo");
    let filters = vec![
        SizeFilter::Min(1000),
        SizeFilter::Max(5000),
        SizeFilter::Min(2000),
    ];
    input.size_filters = &filters;
    let hint = translate(&input, root()).unwrap().size_hint.unwrap();
    assert_eq!(hint.min_bytes, Some(2000));
    assert_eq!(hint.max_bytes, Some(5000));
}

#[test]
fn time_hint_after_populates_min() {
    let mut input = input_for("foo");
    let after = TimeFilter::After(UnixTime { before_epoch: false, secs: 1_000, nanos: 0 });
    let filters = vec![after];
    input.time_filters = &filters;
    let hint = translate(&input, root()).unwrap().time_hint.unwrap();
    assert!(hint.min_filetime.is_some());
    assert!(hint.max_filetime.is_none());
}

#[test]
fn depth_and_result_caps_pass_through() {
    let mut input = input_for("foo");
    input.max_depth = Some(3);
    input.max_results = Some(50);
    let q = translate(&input, root()).unwrap();
    assert_eq!(q.max_depth, Some(3));
    assert_eq!(q.max_results, Some(50));
}

#[test]
fn empty_pattern_emits_empty_fragment() {
    let q = translate(&input_for(""), root()).unwrap();
    assert!(q.pattern.everything_query.is_empty());
}

#[test]
fn plain_literal_is_accepted() {
    assert!(check_regex_pattern("foo").is_ok());
}

#[test]
fn quote_routes_to_filesystem_walker() {
    assert_eq!(
        check_regex_pattern("foo\"bar").unwrap_err(),
        RejectReason::QueryQuote
    );
}

#[test]
fn empty_pattern_is_accepted() {
    assert!(check_regex_pattern("").is_ok());
}

#[test]
fn rule1_unicode_property_rejected() {
    assert_eq!(
        check_regex_pattern(r"\p{Greek}").unwrap_err(),
        RejectReason::UnicodeProperty
    );
    assert_eq!(
        check_regex_pattern(r"\P{Letter}").unwrap_err(),
        RejectReason::UnicodeProperty
    );
}

#[test]
fn rule2_perl_classes_rejected() {
    for p in [r"\w", r"\W", r"\d", r"\D", r"\s", r"\S"] {
        assert_eq!(
            check_regex_pattern(p).unwrap_err(),
            RejectReason::UnicodeAwarePerlClassOrBoundary,
            "expected rule-2 rejection for {p}"
        );
    }
}

#[test]
fn rule2_word_boundaries_rejected() {
    for p in [r"\bfoo", r"\Bfoo"] {
        assert_eq!(
            check_regex_pattern(p).unwrap_err(),
            RejectReason::UnicodeAwarePerlClassOrBoundary,
            "expected rule-2 rejection for {p}"
        );
    }
}

#[test]
fn rule3_safe_anchors_pass() {
    assert!(check_regex_pattern("^foo$").is_ok());
}

#[test]
fn rule3_strict_anchors_rejected() {
    for p in [r"\Afoo", r"foo\z"] {
        assert_eq!(
            check_regex_pattern(p).unwrap_err(),
            RejectReason::UnsupportedAnchor,
            "expected rule-3 rejection for {p}"
        );
    }
}

#[test]
fn rule4_inline_flags_rejected() {
    for p in [r"(?m)foo", r"(?s)foo", r"(?x)foo", r"(?-u)foo"] {
        assert_eq!(
            check_regex_pattern(p).unwrap_err(),
            RejectReason::UnsupportedFlag,
            "expected rule-4 rejection for {p}"
        );
    }
}

#[test]
fn rule5_scoped_case_flag_rejected() {
    assert_eq!(
        check_regex_pattern(r"(?i:foo)").unwrap_err(),
        RejectReason::ScopedCaseFlag
    );
    assert_eq!(
        check_regex_pattern(r"(?-i:foo)").unwrap_err(),
        RejectReason::ScopedCaseFlag
    );
}

#[test]
fn rule6_deep_nesting_rejected() {
    let mut deep = String::new();
    for _ in 0..40 {
        deep.push('(');
    }
    deep.push('a');
    for _ in 0..40 {
        deep.push(')');
    }
    assert_eq!(
        check_regex_pattern(&deep).unwrap_err(),
        RejectReason::NestingTooDeep
    );
}

#[test]
fn unicode_property_inside_class_rejected() {
    assert_eq!(
        check_regex_pattern(r"[\p{L}]").unwrap_err(),
        RejectReason::UnicodeProperty
    );
}

#[test]
fn capture_group_with_plain_literal_passes() {
    assert!(check_regex_pattern("(foo)").is_ok());
    assert!(check_regex_pattern("(foo|bar)").is_ok());
}

#[test]
fn unparseable_pattern_is_passed_through() {
    assert!(check_regex_pattern("(foo").is_ok());
}

#[test]
fn time_limits_inside_filetime_range_fit() {
    let times = vec![TimeFilter::After(UnixTime { before_epoch: false, secs: 1_700_000_000, nanos: 5 })];
    let mut input = input_for("foo");
    input.time_filters = &times;
    assert!(input_times_fit(&input));
}

#[test]
fn time_limits_beyond_filetime_range_do_not_fit() {
    let times = vec![
        TimeFilter::After(UnixTime { before_epoch: false, secs: 10, nanos: 0 }),
        TimeFilter::Before(UnixTime { before_epoch: false, secs: i64::MAX as u64, nanos: 0 }),
    ];
    let mut input = input_for("foo");
    input.time_filters = &times;
    assert!(!input_times_fit(&input));
}

#[test]
fn scan_ast_past_the_nesting_limit_is_too_deep() {
    assert_eq!(scan_ast(&RegexNode::Literal, MAX_AST_DEPTH + 1), Err(RejectReason::NestingTooDeep));
    assert_eq!(scan_ast(&RegexNode::Literal, usize::MAX), Err(RejectReason::NestingTooDeep));
    assert_eq!(scan_ast(&RegexNode::Literal, MAX_AST_DEPTH), Ok(()));
    let nested = RegexNode::Repetition(Box::new(RegexNode::Literal));
    assert_eq!(scan_ast(&nested, MAX_AST_DEPTH), Err(RejectReason::NestingTooDeep));
}
