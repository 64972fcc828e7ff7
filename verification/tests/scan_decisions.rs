use fde::filetypes::FileTypes;
use fde::scan::backend::everything::error::EverythingError;
use fde::scan::backend::{BackendError, CancellationToken, RawHit};
use fde::scan::dispatch::{
    batch_limit, logical_root, route_root, run_outcome, search_str_for_entry, should_finalize,
    strip_verbatim_prefix, use_real_probe, ReparseResolution, RootRoute, RunOutcome,
};
use fde::scan::path_projection::SearchRoot;
use fde::scan::pipeline_builder::{build_pipeline, ignore_flags_from, stage_plan, FilterConfig, Stage};
use fde::scan::post_filter::ignore_cache::parallel::{ChunkPolicy, ChunkSchedule};
use fde::scan::post_filter::PipelineOutcome;
use fde::scan::receiver::{ExitCode, ReceiverMode, ReceiverState, StopPlan};
use fde::winpath::path_same;

#[test]
fn search_str_for_entry_with_relative_path() {
    let out = search_str_for_entry("foo/bar", Some("/home/user"));
    assert!(path_same(out.as_str(), "/home/user/foo/bar"), "got {}", out.as_str());
}

#[test]
fn search_str_for_entry_strips_dot_prefix() {
    let out = search_str_for_entry("./foo/bar", Some("/home/user"));
    assert!(path_same(out.as_str(), "/home/user/foo/bar"), "got {}", out.as_str());
}

#[test]
fn search_str_for_entry_with_absolute_path() {
    let out = search_str_for_entry("/absolute/path", Some("/home/user"));
    assert!(path_same(out.as_str(), "/absolute/path"), "got {}", out.as_str());
}

#[test]
fn search_str_no_base_dir() {
    assert!(path_same(search_str_for_entry("./foo/bar", None).as_str(), "bar"));
}

#[test]
fn search_str_no_base_dir_with_plain_relative_path() {
    assert!(path_same(search_str_for_entry("foo/bar", None).as_str(), "bar"));
}

#[test]
fn search_str_no_base_dir_with_file_in_current_dir() {
    assert!(path_same(search_str_for_entry("foo", None).as_str(), "foo"));
}

#[test]
fn search_str_keeps_drive_absolute_entries_and_drive_of_base() {
    assert_eq!(search_str_for_entry(r"D:\x\y", Some(r"C:\cwd")).as_str(), r"D:\x\y");
    assert_eq!(search_str_for_entry(r"\x\y", Some(r"C:\cwd")).as_str(), r"C:\x\y");
    assert_eq!(search_str_for_entry(r"sub\f", Some(r"C:\cwd")).as_str(), r"C:\cwd\sub\f");
}

#[test]
fn verbatim_prefixes_are_stripped() {
    assert_eq!(strip_verbatim_prefix(r"\\?\C:\very\long"), r"C:\very\long");
    assert_eq!(strip_verbatim_prefix(r"\\?\UNC\server\share\x"), r"\\server\share\x");
    assert_eq!(strip_verbatim_prefix(r"C:\plain"), r"C:\plain");
    assert_eq!(strip_verbatim_prefix(r"\\server\share"), r"\\server\share");
}

#[test]
fn reparse_roots_are_queried_at_their_target_and_rebased() {
    match route_root(r"D:\links\repo".to_string(), ReparseResolution::Target(r"D:\real\repo".to_string()), false) {
        RootRoute::Backend { query_root, rebase_to } => {
            assert_eq!(query_root, r"D:\real\repo");
            assert_eq!(rebase_to.as_deref(), Some(r"D:\links\repo"));
        }
        other => panic!("unexpected {other:?}"),
    }
    assert!(matches!(
        route_root(r"D:\links\repo".to_string(), ReparseResolution::Target(r"D:\real".to_string()), true),
        RootRoute::Legacy
    ));
    assert!(matches!(route_root("x".to_string(), ReparseResolution::Failed, false), RootRoute::Legacy));
    match route_root(r"C:\repo".to_string(), ReparseResolution::NotReparse, true) {
        RootRoute::Backend { query_root, rebase_to } => {
            assert_eq!(query_root, r"C:\repo");
            assert!(rebase_to.is_none());
        }
        other => panic!("unexpected {other:?}"),
    }
}

#[test]
fn logical_root_prefers_the_canonical_search_root() {
    let roots = vec![SearchRoot { canonical: r"C:\repo".to_string(), display: "./".to_string() }];
    assert_eq!(logical_root(&roots, 0, "."), r"C:\repo");
    assert_eq!(logical_root(&roots, 1, r"D:\x"), r"D:\x");
}

#[test]
fn run_outcomes_distinguish_fallback_from_hard_errors() {
    assert!(matches!(run_outcome(Ok(())), RunOutcome::Done));
    assert!(matches!(run_outcome(Err(BackendError::Cancelled)), RunOutcome::Done));
    assert!(matches!(
        run_outcome(Err(BackendError::Everything(EverythingError::Ipc))),
        RunOutcome::Fallback
    ));
    match run_outcome(Err(BackendError::Everything(EverythingError::InvalidCall))) {
        RunOutcome::HardError(m) => assert!(m.contains("sequenced incorrectly")),
        other => panic!("unexpected {other:?}"),
    }
    match run_outcome(Err(BackendError::Other("boom".to_string()))) {
        RunOutcome::HardError(m) => assert_eq!(m, "boom"),
        other => panic!("unexpected {other:?}"),
    }
    assert!(should_finalize(&Ok(())));
    assert!(should_finalize(&Err(BackendError::Cancelled)));
    assert!(!should_finalize(&Err(BackendError::Other("x".to_string()))));
}

#[test]
fn batch_limits_and_probe_choice() {
    assert_eq!(batch_limit(true, 4), 1);
    assert_eq!(batch_limit(true, 1), 0x100);
    assert_eq!(batch_limit(false, 8), 0x100);
    assert!(use_real_probe(false, true));
    assert!(!use_real_probe(true, true));
    assert!(!use_real_probe(false, false));
}

#[test]
fn receiver_buffers_then_streams_after_overflow() {
    let mut s = ReceiverState::new(false);
    assert_eq!(s.mode, ReceiverMode::Buffering);
    for _ in 0..1000 {
        let p = s.on_entry(false, None);
        assert!(!p.print_now && !p.flush_buffer && p.stop.is_none());
    }
    assert_eq!(s.buffered, 1000);
    let p = s.on_entry(false, None);
    assert!(p.flush_buffer);
    assert_eq!(s.mode, ReceiverMode::Streaming);
    assert_eq!(s.buffered, 0);
    assert_eq!(s.num_results, 1001);
    assert!(s.on_entry(false, None).print_now);
}

#[test]
fn receiver_stops_at_max_results_and_sorts_buffer() {
    let mut s = ReceiverState::new(false);
    assert!(s.on_entry(false, Some(2)).stop.is_none());
    let p = s.on_entry(false, Some(2));
    assert_eq!(p.stop, Some(StopPlan { sort_and_print_buffer: true, code: ExitCode::Success }));
    let mut q = ReceiverState::new(true);
    let p = q.on_entry(true, None);
    assert_eq!(p.quit, Some(ExitCode::HasResults(true)));
    assert_eq!(q.num_results, 0);
    assert_eq!(q.stop_plan(true).code, ExitCode::HasResults(false));
    q.on_timeout();
    assert!(q.flush_after_batch(true));
    assert!(!q.flush_after_batch(false));
}

#[test]
fn force_unit_holds_chunk_at_one() {
    let policy = ChunkPolicy { max_chunk: 256, flush_deadline_ms: 50, force_unit: true };
    let mut s = ChunkSchedule::new(policy);
    for _ in 0..5 {
        assert!(s.push(false), "force_unit must emit on every push");
        assert_eq!(s.chunk_target, 1);
    }
}

#[test]
fn chunk_target_grows_geometrically_after_drain() {
    let policy = ChunkPolicy { max_chunk: 4, flush_deadline_ms: 60_000, force_unit: false };
    let mut s = ChunkSchedule::new(policy);
    assert!(s.push(false));
    assert!(!s.push(false));
    assert!(s.push(false));
    assert!(!s.push(false));
    assert!(!s.push(false));
    assert!(!s.push(false));
    assert!(s.push(false));
    assert_eq!(s.chunk_target, 4);
    assert!(!s.push(false));
    assert!(s.push(true), "a passed deadline releases a partial chunk");
    assert!(!s.finish());
    assert!(!s.push(false));
    assert!(s.finish());
}

#[test]
fn chunk_policy_reads_settings_text() {
    let p = ChunkPolicy::from_settings(Some("64"), Some("+12"), true);
    assert_eq!((p.max_chunk, p.flush_deadline_ms, p.force_unit), (64, 12, true));
    let q = ChunkPolicy::from_settings(Some("0"), Some("x"), false);
    assert_eq!((q.max_chunk, q.flush_deadline_ms), (256, 5));
    let r = ChunkPolicy::from_settings(None, Some("99999999999999999999"), false);
    assert_eq!((r.max_chunk, r.flush_deadline_ms), (256, 5));
    let d = ChunkPolicy::default();
    assert_eq!((d.max_chunk, d.flush_deadline_ms, d.force_unit), (256, 5, false));
}

fn empty_config() -> FilterConfig {
    FilterConfig {
        ignore_contain: vec![],
        one_file_system: false,
        exclude_patterns: vec![],
        file_types: None,
        extensions: None,
        size_constraints: vec![],
        time_constraints: vec![],
        min_depth: None,
        max_depth: None,
        ignore_hidden: false,
        read_fdignore: false,
        read_vcsignore: false,
        require_git_to_read_vcsignore: false,
        read_parent_ignore: true,
        read_global_ignore: false,
        case_sensitive: false,
        prune: false,
        follow_links: true,
        max_results: None,
    }
}

fn hit() -> RawHit {
    RawHit {
        path: r"C:\repo\file.txt".to_string(),
        is_dir: false,
        size: 0,
        mtime: 0,
        ctime: 0,
        attributes: 0,
        extension: "txt".to_string(),
        depth: 1,
        search_root: r"C:\repo".to_string(),
    }
}

#[test]
fn empty_config_produces_no_op_pipeline() {
    let cfg = empty_config();
    let cancel = CancellationToken::new();
    let mut pipe = build_pipeline(&cfg, r"C:\repo", &cancel, None).unwrap();
    assert_eq!(pipe.process(&hit()), PipelineOutcome::Forward);
    assert!(stage_plan(&cfg).is_empty());
}

#[test]
fn max_results_runs_after_type_filter() {
    let mut cfg = empty_config();
    cfg.max_results = Some(1);
    cfg.file_types = Some(FileTypes {
        directories: true,
        ..Default::default()
    });
    let cancel = CancellationToken::new();
    let mut pipe = build_pipeline(&cfg, r"C:\repo", &cancel, None).unwrap();

    let file_hit = hit();
    assert_eq!(pipe.process(&file_hit), PipelineOutcome::Drop);
    assert!(!cancel.is_cancelled(), "max_results must not count dropped hits");

    let dir_hit = RawHit {
        is_dir: true,
        ..hit()
    };
    assert_eq!(pipe.process(&dir_hit), PipelineOutcome::ForwardAndCancel);
    assert!(cancel.is_cancelled());
}

#[test]
fn no_ignore_skips_ignore_cache_filter() {
    let mut cfg = empty_config();
    cfg.read_fdignore = false;
    cfg.read_vcsignore = false;
    assert!(!ignore_flags_from(&cfg).any_enabled());
    let cancel = CancellationToken::new();
    let mut pipe = build_pipeline(&cfg, r"C:\repo", &cancel, None).unwrap();
    assert_eq!(pipe.process(&hit()), PipelineOutcome::Forward);
}

#[test]
fn prune_off_means_no_buffering_filter() {
    let cfg = empty_config();
    let cancel = CancellationToken::new();
    let mut pipe = build_pipeline(&cfg, r"C:\repo", &cancel, None).unwrap();
    assert_eq!(pipe.process(&hit()), PipelineOutcome::Forward);
}

#[test]
fn stage_plan_follows_the_fixed_order() {
    let mut cfg = empty_config();
    cfg.max_results = Some(3);
    cfg.ignore_hidden = true;
    cfg.prune = true;
    cfg.follow_links = false;
    cfg.min_depth = Some(1);
    cfg.read_vcsignore = true;
    cfg.ignore_contain = vec!["CACHEDIR.TAG".to_string()];
    assert_eq!(
        stage_plan(&cfg),
        vec![
            Stage::IgnoreContain,
            Stage::Depth,
            Stage::HiddenByName,
            Stage::IgnoreFiles,
            Stage::HiddenByAttr,
            Stage::Prune,
            Stage::Symlink,
            Stage::MaxResults
        ]
    );
    let flags = ignore_flags_from(&cfg);
    assert!(flags.read_vcsignore && !flags.read_fdignore && flags.case_insensitive);
}

#[test]
fn malformed_exclude_pattern_fails_the_build() {
    let mut cfg = empty_config();
    cfg.exclude_patterns = vec!["!a[".to_string()];
    let cancel = CancellationToken::new();
    match build_pipeline(&cfg, r"C:\repo", &cancel, None) {
        Err(m) => assert!(m.starts_with("Malformed exclude pattern: "), "got {m}"),
        Ok(_) => panic!("unclosed class must be refused"),
    }
}

#[test]
fn walker_overrides_share_the_exclude_build() {
    assert!(fde::scan::post_filter::filters::exclude::build_overrides(r"C:\repo", &["!*.tmp".to_string()]).is_ok());
    match fde::scan::post_filter::filters::exclude::build_overrides(r"C:\repo", &["!a[".to_string()]) {
        Err(m) => assert!(m.starts_with("Malformed exclude pattern: "), "got {m}"),
        Ok(_) => panic!("unclosed class must be refused"),
    }
}
