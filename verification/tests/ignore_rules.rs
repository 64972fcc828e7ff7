use fde::scan::backend::CaseModifier;
use fde::scan::post_filter::ignore_cache::pushdown::{
    compile_static_ignore_pushdown, parse_rule, GitignoreRule, RuleShape,
};
use fde::scan::post_filter::ignore_cache::{IgnoreFlags, MatcherKind};

fn rule_any(name: &str) -> GitignoreRule {
    GitignoreRule {
        shape: RuleShape::AnyDepth(name.into()),
    }
}

fn rule_root(name: &str) -> GitignoreRule {
    GitignoreRule {
        shape: RuleShape::RootOnly(name.into()),
    }
}

#[test]
fn parse_node_modules_any_depth() {
    assert_eq!(
        parse_rule("node_modules/").map(|r| r.shape),
        Some(RuleShape::AnyDepth("node_modules".into()))
    );
}

#[test]
fn parse_target_root_only() {
    assert_eq!(
        parse_rule("/target/").map(|r| r.shape),
        Some(RuleShape::RootOnly("target".into()))
    );
}

#[test]
fn parse_rejects_unsafe_forms() {
    for line in [
        "!node_modules/",
        "*.log",
        "build/output/",
        "node_modules",
        "src/foo/",
        "fo o/",
        "fo*o/",
        "",
        "# comment",
    ] {
        assert!(
            parse_rule(line).is_none(),
            "must reject {line:?} as pushdown candidate"
        );
    }
}

#[test]
fn parse_trims_surrounding_whitespace() {
    assert_eq!(
        parse_rule("  dist/\t").map(|r| r.shape),
        Some(RuleShape::AnyDepth("dist".into()))
    );
    assert!(parse_rule("/").is_none());
    assert!(parse_rule("//").is_none());
}

#[test]
fn case_sensitive_query_disables_pushdown() {
    let repo = r"C:\repo";
    let rules = vec![rule_any("node_modules"), rule_root("target")];
    assert!(compile_static_ignore_pushdown(repo, &rules, &[], CaseModifier::Case).is_empty());
}

#[test]
fn whitelisted_dirname_is_dropped() {
    let repo = r"C:\repo";
    let rules = vec![rule_any("node_modules"), rule_any("target")];
    let out = compile_static_ignore_pushdown(
        repo,
        &rules,
        &["node_modules".into()],
        CaseModifier::Nocase,
    );
    assert_eq!(out.len(), 1);
    assert!(out[0].contains("target"));
}

#[test]
fn whitelist_comparison_ignores_ascii_case() {
    let out = compile_static_ignore_pushdown(
        r"C:\repo",
        &[rule_any("Target")],
        &["tARGET".into()],
        CaseModifier::Nocase,
    );
    assert!(out.is_empty());
}

#[test]
fn anydepth_and_root_translations_diverge() {
    let repo = r"C:\repo";
    let out = compile_static_ignore_pushdown(
        repo,
        &[rule_any("node_modules"), rule_root("target")],
        &[],
        CaseModifier::Nocase,
    );
    assert_eq!(out.len(), 2);
    assert!(out[0].contains("([\\\\/].*)?[\\\\/]node_modules"));
    assert!(out[1].ends_with("[\\\\/]target(?:[\\\\/]|$)"));
    assert!(!out[1].contains("([\\\\/].*)?"));
}

#[test]
fn fragments_anchor_at_repo_root() {
    let repo = r"C:\repo";
    let out = compile_static_ignore_pushdown(
        repo,
        &[rule_any("node_modules")],
        &[],
        CaseModifier::Nocase,
    );
    assert!(out[0].starts_with("!regex:^C:\\\\repo"));
}

#[test]
fn pushdown_fragment_escapes_dots_exactly() {
    let out = compile_static_ignore_pushdown(r"C:\r", &[rule_root(".venv")], &[], CaseModifier::Nocase);
    assert_eq!(out, vec![r"!regex:^C:\\r[\\/]\.venv(?:[\\/]|$)".to_string()]);
}

#[test]
fn matcher_kind_priority_order_matches_plan() {
    assert!(MatcherKind::Custom < MatcherKind::DotIgnore);
    assert!(MatcherKind::DotIgnore < MatcherKind::Fdignore);
    assert!(MatcherKind::Fdignore < MatcherKind::Gitignore);
    assert!(MatcherKind::Gitignore < MatcherKind::GitInfoExclude);
    assert!(MatcherKind::GitInfoExclude < MatcherKind::GitGlobal);
    assert!(MatcherKind::GitGlobal < MatcherKind::FdGlobal);
}

#[test]
fn gitignore_kinds_truncate_at_git_root_others_do_not() {
    assert!(MatcherKind::Gitignore.truncates_at_git_root());
    assert!(MatcherKind::GitInfoExclude.truncates_at_git_root());
    assert!(!MatcherKind::Fdignore.truncates_at_git_root());
    assert!(!MatcherKind::DotIgnore.truncates_at_git_root());
    assert!(!MatcherKind::Custom.truncates_at_git_root());
    assert!(!MatcherKind::GitGlobal.truncates_at_git_root());
    assert!(!MatcherKind::FdGlobal.truncates_at_git_root());
}

#[test]
fn kind_lists_follow_precedence() {
    assert_eq!(
        MatcherKind::per_dir_kinds(),
        [
            MatcherKind::Custom,
            MatcherKind::DotIgnore,
            MatcherKind::Fdignore,
            MatcherKind::Gitignore,
            MatcherKind::GitInfoExclude
        ]
    );
    assert_eq!(
        MatcherKind::global_kinds(),
        [MatcherKind::Custom, MatcherKind::GitGlobal, MatcherKind::FdGlobal]
    );
}

#[test]
fn ignore_flags_any_enabled() {
    let all = IgnoreFlags::default();
    assert!(all.any_enabled());
    let none = IgnoreFlags {
        read_fdignore: false,
        read_vcsignore: false,
        ..IgnoreFlags::default()
    };
    assert!(!none.any_enabled());
    let vcs_only = IgnoreFlags {
        read_fdignore: false,
        ..IgnoreFlags::default()
    };
    assert!(vcs_only.any_enabled());
}

use fde::scan::post_filter::ignore_cache::{decide, parent_ceiling_for, Decision, DirFacts};

const NONE5: [Option<Decision>; 5] = [None, None, None, None, None];

fn dir(has_git: bool, verdicts: [Option<Decision>; 5]) -> DirFacts {
    DirFacts { has_git, verdicts }
}

// slots: 0 Custom, 1 .ignore, 2 .fdignore, 3 .gitignore, 4 info/exclude
fn with(slot: usize, d: Decision) -> [Option<Decision>; 5] {
    let mut v = NONE5;
    v[slot] = Some(d);
    v
}

#[test]
fn fdignore_whitelist_beats_deeper_gitignore_ignore() {
    let chain = [dir(false, with(3, Decision::Hide)), dir(true, with(2, Decision::Show))];
    assert_eq!(decide(IgnoreFlags::default(), true, &chain, [None; 3]), Decision::Show);
}

#[test]
fn gitignore_truncates_at_nested_git_root() {
    let chain = [dir(true, NONE5), dir(true, with(3, Decision::Hide))];
    assert_eq!(decide(IgnoreFlags::default(), true, &chain, [None; 3]), Decision::Show);
}

#[test]
fn fdignore_does_not_truncate_at_git_boundary() {
    let chain = [dir(true, NONE5), dir(false, with(2, Decision::Hide))];
    assert_eq!(decide(IgnoreFlags::default(), true, &chain, [None; 3]), Decision::Hide);
}

#[test]
fn gitignore_without_git_is_noop_when_require_git() {
    let chain = [dir(false, with(3, Decision::Hide))];
    assert_eq!(decide(IgnoreFlags::default(), true, &chain, [None; 3]), Decision::Show);
    let flags = IgnoreFlags { require_git: false, ..IgnoreFlags::default() };
    assert_eq!(decide(flags, true, &chain, [None; 3]), Decision::Hide);
}

#[test]
fn no_ignore_vcs_disables_gitignore_kinds_and_globals_follow_flags() {
    let chain = [dir(true, with(3, Decision::Hide))];
    let flags = IgnoreFlags { read_vcsignore: false, ..IgnoreFlags::default() };
    assert_eq!(decide(flags, true, &chain, [None; 3]), Decision::Show);
    assert_eq!(decide(IgnoreFlags::default(), true, &[], [None, None, Some(Decision::Hide)]), Decision::Hide);
    let no_globals = IgnoreFlags { read_global_ignore: false, ..IgnoreFlags::default() };
    assert_eq!(decide(no_globals, true, &[], [None, None, Some(Decision::Hide)]), Decision::Show);
    assert_eq!(decide(no_globals, true, &[], [Some(Decision::Hide), None, None]), Decision::Hide);
}

#[test]
fn empty_flags_short_circuit_show() {
    let flags = IgnoreFlags { read_fdignore: false, read_vcsignore: false, ..IgnoreFlags::default() };
    let chain = [dir(true, with(0, Decision::Hide))];
    assert_eq!(decide(flags, true, &chain, [Some(Decision::Hide); 3]), Decision::Show);
    assert_eq!(decide(IgnoreFlags::default(), false, &chain, [Some(Decision::Hide); 3]), Decision::Show);
}

#[test]
fn parent_ceiling_only_without_parent_ignore() {
    let ceilings = vec![r"C:\repo".to_string(), r"D:\data".to_string()];
    assert_eq!(parent_ceiling_for(IgnoreFlags::default(), &ceilings, r"D:\data\x"), None);
    let flags = IgnoreFlags { read_parent_ignore: false, ..IgnoreFlags::default() };
    assert_eq!(parent_ceiling_for(flags, &ceilings, r"D:\data\x"), Some(r"D:\data".to_string()));
    assert_eq!(parent_ceiling_for(flags, &ceilings, r"E:\y"), None);
}
