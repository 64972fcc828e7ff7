use fde::scan::post_filter::filters::extension::{ExtensionFilter, PatternSet};
use fde::scan::post_filter::filters::exclude::ExcludeFilter;
use fde::scan::post_filter::filters::exclude::{verdict_for, OverrideMatch};
use fde::filetypes::FileTypes;
use fde::filter::{filetime_fits, filetime_to_systemtime, parse_duration, time_from_str, SizeFilter, TimeFilter, UnixTime, FILETIME_TO_UNIX_EPOCH_100NS};
use fde::scan::post_filter::filters::time_filter::TimeConstraints;
use fde::scan::backend::{CancellationToken, RawHit};
use fde::scan::post_filter::filters::depth::DepthFilter;
use fde::scan::post_filter::filters::hidden_by_attr::{HiddenByAttrFilter, FILE_ATTRIBUTE_HIDDEN};
use fde::scan::post_filter::filters::hidden_by_name::HiddenByNameFilter;
use fde::scan::post_filter::filters::ignore_contain::IgnoreContainFilter;
use fde::scan::post_filter::filters::max_results::MaxResultsFilter;
use fde::scan::post_filter::filters::owner::OwnerFilter;
use fde::scan::post_filter::filters::prune::PruneFilter;
use fde::scan::post_filter::filters::same_filesystem::{
    NoopVolumeIdProvider, SameFilesystemFilter, VolumeIdProvider,
};
use fde::scan::post_filter::filters::size::{SizeConstraints, FILE_ATTRIBUTE_REPARSE_POINT};
use fde::scan::post_filter::filters::symlink_filter::SymlinkFilter;
use fde::scan::post_filter::filters::type_filter::TypeFilter;
use fde::scan::post_filter::{Filter, Verdict};
use fde::winpath::path_starts_with;

fn hit_at(path: &str, root: &str) -> RawHit {
    RawHit {
        path: path.to_string(),
        is_dir: false,
        size: 0,
        mtime: 0,
        ctime: 0,
        attributes: 0,
        extension: String::new(),
        depth: 1,
        search_root: root.to_string(),
    }
}

fn plain() -> RawHit {
    hit_at("/x", "/")
}

#[test]
fn min_and_max_depth_form_inclusive_window() {
    let hit = |depth: usize| RawHit { depth, ..plain() };
    let mut f = DepthFilter::new(Some(2), Some(4));
    assert_eq!(f.evaluate(&hit(1)), Verdict::Drop);
    assert_eq!(f.evaluate(&hit(2)), Verdict::Keep);
    assert_eq!(f.evaluate(&hit(4)), Verdict::Keep);
    assert_eq!(f.evaluate(&hit(5)), Verdict::Drop);
}

#[test]
fn open_depth_window_keeps_everything() {
    let mut f = DepthFilter::new(None, None);
    assert_eq!(f.evaluate(&RawHit { depth: 0, ..plain() }), Verdict::Keep);
    assert_eq!(f.evaluate(&RawHit { depth: 99, ..plain() }), Verdict::Keep);
}

#[test]
fn hidden_bit_drops_when_enabled() {
    let hit = |attributes: u32| RawHit { attributes, ..plain() };
    let mut f = HiddenByAttrFilter::new(true);
    assert_eq!(f.evaluate(&hit(FILE_ATTRIBUTE_HIDDEN)), Verdict::Drop);
    assert_eq!(f.evaluate(&hit(0)), Verdict::Keep);
}

#[test]
fn hidden_bit_kept_when_disabled() {
    let mut f = HiddenByAttrFilter::new(false);
    assert_eq!(
        f.evaluate(&RawHit { attributes: FILE_ATTRIBUTE_HIDDEN, ..plain() }),
        Verdict::Keep
    );
}

#[test]
fn dotfiles_drop_when_enabled() {
    let mut f = HiddenByNameFilter::new(true);
    assert_eq!(f.evaluate(&hit_at("/repo/.git", "/repo")), Verdict::Drop);
    assert_eq!(f.evaluate(&hit_at("/repo/git", "/repo")), Verdict::Keep);
}

#[test]
fn dotfile_ancestor_drops_even_when_leaf_is_visible() {
    let mut f = HiddenByNameFilter::new(true);
    assert_eq!(f.evaluate(&hit_at("/repo/.git/a.foo", "/repo")), Verdict::Drop);
    assert_eq!(
        f.evaluate(&hit_at("/repo/nested/dir/.git/foo2", "/repo")),
        Verdict::Drop
    );
    assert_eq!(
        f.evaluate(&hit_at("/repo/nested/visible/foo", "/repo")),
        Verdict::Keep
    );
}

#[test]
fn dotfile_above_search_root_does_not_drop() {
    let mut f = HiddenByNameFilter::new(true);
    assert_eq!(
        f.evaluate(&hit_at("/home/u/.config/app.toml", "/home/u/.config")),
        Verdict::Keep
    );
}

#[test]
fn disabled_keeps_dotfiles() {
    let mut f = HiddenByNameFilter::new(false);
    assert_eq!(f.evaluate(&hit_at("/repo/.git", "/repo")), Verdict::Keep);
}

#[test]
fn emits_exactly_n_then_cancels() {
    let cancel = CancellationToken::new();
    let mut f = MaxResultsFilter::new(3, cancel.clone());
    assert_eq!(f.evaluate(&plain()), Verdict::Keep);
    assert_eq!(f.evaluate(&plain()), Verdict::Keep);
    assert_eq!(f.evaluate(&plain()), Verdict::Cancel);
    assert!(
        cancel.is_cancelled(),
        "cancel token must fire on the boundary hit"
    );
}

#[test]
fn zero_limit_keeps_everything() {
    let cancel = CancellationToken::new();
    let mut f = MaxResultsFilter::new(0, cancel.clone());
    for _ in 0..10 {
        assert_eq!(f.evaluate(&plain()), Verdict::Keep);
    }
    assert!(!cancel.is_cancelled());
}

#[test]
fn stub_keeps_all_hits() {
    let mut f = OwnerFilter::new();
    assert_eq!(f.evaluate(&plain()), Verdict::Keep);
}

#[test]
fn empty_marker_list_keeps_everything() {
    let mut f = IgnoreContainFilter::new(vec![]);
    assert_eq!(f.evaluate(&hit_at("/x/y", "/")), Verdict::Keep);
}

#[test]
fn matched_dir_keeps_self_drops_descendants() {
    let dir = |p: &str| RawHit { is_dir: true, ..hit_at(p, "/") };
    let file = |p: &str| hit_at(p, "/");
    let mut f = PruneFilter::new();
    let _ = f.evaluate(&file("/a/b/c.rs"));
    let _ = f.evaluate(&file("/a/b/d.rs"));
    let _ = f.evaluate(&dir("/a/b"));
    let _ = f.evaluate(&file("/a/sibling.rs"));

    let out = f.drain();
    let paths: Vec<_> = out.iter().map(|h| h.path.clone()).collect();
    assert_eq!(
        paths,
        vec!["/a/b".to_string(), "/a/sibling.rs".to_string()],
        "matched dir kept; its descendants dropped; siblings survive"
    );
}

#[test]
fn prune_drains_in_path_order_and_replaces_duplicates() {
    let mut f = PruneFilter::new();
    assert_eq!(f.evaluate(&hit_at("/b", "/")), Verdict::Drop);
    assert_eq!(f.evaluate(&hit_at("/a/z", "/")), Verdict::Drop);
    assert_eq!(f.evaluate(&RawHit { size: 7, ..hit_at("/b", "/") }), Verdict::Drop);
    let out = f.drain();
    assert_eq!(out.len(), 2);
    assert_eq!(out[0].path, "/a/z");
    assert_eq!(out[1].path, "/b");
    assert_eq!(out[1].size, 7);
    assert!(f.drain().is_empty());
}

struct FakeProvider {
    table: Vec<(String, u64)>,
}

impl VolumeIdProvider for FakeProvider {
    fn volume_id(&self, p: &str) -> Option<u64> {
        self.table
            .iter()
            .find(|(prefix, _)| path_starts_with(p, prefix))
            .map(|(_, id)| *id)
    }
}

#[test]
fn drops_hits_on_other_volume() {
    let provider = Box::new(FakeProvider {
        table: vec![("/C".to_string(), 1), ("/D".to_string(), 2)],
    });
    let mut f = SameFilesystemFilter::new(provider);
    assert_eq!(f.evaluate(&hit_at("/C/repo/a.rs", "/C/repo")), Verdict::Keep);
    assert_eq!(f.evaluate(&hit_at("/D/mount/x.rs", "/C/repo")), Verdict::Drop);
}

#[test]
fn fail_open_when_root_lookup_fails() {
    let mut f = SameFilesystemFilter::new(Box::new(NoopVolumeIdProvider));
    assert_eq!(f.evaluate(&hit_at("/D/mount/x.rs", "/C/repo")), Verdict::Keep);
}

fn sized(size: u64, is_dir: bool) -> RawHit {
    RawHit { size, is_dir, ..plain() }
}

#[test]
fn size_constraint_uses_raw_hit_size() {
    let min = SizeFilter::from_string("+1k").unwrap();
    let mut f = SizeConstraints::new(vec![min]);
    assert_eq!(f.evaluate(&sized(2000, false)), Verdict::Keep);
    assert_eq!(f.evaluate(&sized(500, false)), Verdict::Drop);
    assert_eq!(f.evaluate(&sized(10_000, true)), Verdict::Drop);
}

#[test]
fn directory_symlink_does_not_pass_zero_byte_constraint() {
    let zero = SizeFilter::from_string("0B").unwrap();
    let mut f = SizeConstraints::new(vec![zero]);
    let mut sym = sized(0, false);
    sym.attributes = FILE_ATTRIBUTE_REPARSE_POINT;
    assert_eq!(f.evaluate(&sym), Verdict::Drop);
}

#[test]
fn empty_constraints_keep_everything() {
    let mut f = SizeConstraints::new(vec![]);
    assert_eq!(f.evaluate(&sized(0, false)), Verdict::Keep);
    assert_eq!(f.evaluate(&sized(0, true)), Verdict::Keep);
}

#[test]
fn size_filter_parses_units_and_signs() {
    assert_eq!(SizeFilter::from_string("+1k"), Some(SizeFilter::Min(1000)));
    assert_eq!(SizeFilter::from_string("-2ki"), Some(SizeFilter::Max(2048)));
    assert_eq!(SizeFilter::from_string("10b"), Some(SizeFilter::Equals(10)));
    assert_eq!(SizeFilter::from_string("3M"), Some(SizeFilter::Equals(3_000_000)));
    assert_eq!(SizeFilter::from_string("1x"), None);
    assert_eq!(SizeFilter::from_string("k"), None);
    assert!(SizeFilter::Min(5).is_within(5));
    assert!(!SizeFilter::Max(5).is_within(6));
}

fn linkish(path: &str, is_dir: bool, attributes: u32) -> RawHit {
    RawHit { is_dir, attributes, ..hit_at(path, "/") }
}

#[test]
fn descendants_of_reparse_dir_drop() {
    let mut f = SymlinkFilter::new(false);
    assert_eq!(
        f.evaluate(&linkish("/link", true, FILE_ATTRIBUTE_REPARSE_POINT)),
        Verdict::Keep,
        "the symlink dir itself is emitted once"
    );
    assert_eq!(f.evaluate(&linkish("/link/inside.rs", false, 0)), Verdict::Drop);
}

#[test]
fn follow_links_disables_filter() {
    let mut f = SymlinkFilter::new(true);
    assert_eq!(
        f.evaluate(&linkish("/link", true, FILE_ATTRIBUTE_REPARSE_POINT)),
        Verdict::Keep
    );
    assert_eq!(f.evaluate(&linkish("/link/inside.rs", false, 0)), Verdict::Keep);
}

#[test]
fn filetime_at_unix_epoch_round_trips() {
    assert_eq!(
        filetime_to_systemtime(FILETIME_TO_UNIX_EPOCH_100NS),
        UnixTime { before_epoch: false, secs: 0, nanos: 0 }
    );
    assert_eq!(
        filetime_to_systemtime(FILETIME_TO_UNIX_EPOCH_100NS + 10_000_001),
        UnixTime { before_epoch: false, secs: 1, nanos: 100 }
    );
}

fn typed(is_dir: bool, attributes: u32) -> RawHit {
    RawHit { is_dir, attributes, ..plain() }
}

#[test]
fn files_only_drops_dirs_and_symlinks() {
    let types = FileTypes {
        files: true,
        ..Default::default()
    };
    let mut f = TypeFilter::new(types);
    assert_eq!(f.evaluate(&typed(false, 0)), Verdict::Keep);
    assert_eq!(f.evaluate(&typed(true, 0)), Verdict::Drop);
    assert_eq!(
        f.evaluate(&typed(false, FILE_ATTRIBUTE_REPARSE_POINT)),
        Verdict::Drop
    );
}

#[test]
fn executables_only_is_passthrough_stub() {
    let types = FileTypes {
        files: true,
        executables_only: true,
        ..Default::default()
    };
    let mut f = TypeFilter::new(types);
    assert_eq!(f.evaluate(&typed(false, 0)), Verdict::Keep);
}

#[test]
fn extension_set_matches_file_name_suffix() {
    let set = PatternSet::new(&[r"\.rs$".to_string(), r"\.toml$".to_string()]).unwrap();
    let mut f = ExtensionFilter::new(set);
    assert_eq!(f.evaluate(&hit_at("/p/a.rs", "/")), Verdict::Keep);
    assert_eq!(f.evaluate(&hit_at("/p/Cargo.toml", "/")), Verdict::Keep);
    assert_eq!(f.evaluate(&hit_at("/p/README", "/")), Verdict::Drop);
    assert_eq!(f.evaluate(&hit_at("/p/src.rs/inner", "/")), Verdict::Drop);
}

#[test]
fn glob_pattern_drops_matching_files() {
    let tmp = tempfile::tempdir().unwrap();
    let root = tmp.path().to_str().unwrap().to_string();
    let mut f = ExcludeFilter::new(&root, &["!*.tmp".to_string()]).ok().unwrap();
    let a_tmp = tmp.path().join("a.tmp").to_str().unwrap().to_string();
    let a_rs = tmp.path().join("a.rs").to_str().unwrap().to_string();
    assert_eq!(f.evaluate(&hit_at(&a_tmp, &root)), Verdict::Drop);
    assert_eq!(f.evaluate(&hit_at(&a_rs, &root)), Verdict::Keep);
}

#[test]
fn exclude_match_maps_to_verdict() {
    assert_eq!(verdict_for(OverrideMatch::Ignore), Verdict::Drop);
    assert_eq!(verdict_for(OverrideMatch::Whitelist), Verdict::Keep);
    assert_eq!(verdict_for(OverrideMatch::Unmatched), Verdict::Keep);
}

#[test]
fn before_now_drops_future_hits() {
    let yesterday = FILETIME_TO_UNIX_EPOCH_100NS + 315_532_800_i64 * 10_000_000;
    let future = FILETIME_TO_UNIX_EPOCH_100NS + (i64::from(u32::MAX)) * 10_000_000;
    let before_now = TimeFilter::before("0sec").expect("parseable");
    let mut f = TimeConstraints::new(vec![before_now]);
    assert_eq!(f.evaluate(&RawHit { mtime: yesterday, ..plain() }), Verdict::Keep);
    assert_eq!(f.evaluate(&RawHit { mtime: future, ..plain() }), Verdict::Drop);
}

#[test]
fn durations_and_timestamps_parse() {
    assert_eq!(parse_duration("0sec"), Some(0));
    assert_eq!(parse_duration("1h 30min"), Some(5_400_000_000_000));
    assert_eq!(parse_duration("2d"), Some(172_800_000_000_000));
    assert_eq!(parse_duration("10"), None);
    assert_eq!(parse_duration(""), None);
    assert_eq!(parse_duration("3 weeks"), None);
    let now = UnixTime { before_epoch: false, secs: 1_000, nanos: 0 };
    assert_eq!(
        time_from_str(now, "10s"),
        Some(UnixTime { before_epoch: false, secs: 990, nanos: 0 })
    );
    assert_eq!(
        time_from_str(now, "20min"),
        Some(UnixTime { before_epoch: true, secs: 200, nanos: 0 })
    );
    assert_eq!(
        time_from_str(now, "@1234"),
        Some(UnixTime { before_epoch: false, secs: 1234, nanos: 0 })
    );
    assert!(TimeFilter::after("garbage").is_none());
    assert!(matches!(TimeFilter::after("1w"), Some(TimeFilter::After(_))));
}

#[test]
fn filetime_fits_marks_the_overflow_edge() {
    assert!(filetime_fits(UnixTime { before_epoch: false, secs: 0, nanos: 0 }));
    assert!(filetime_fits(UnixTime { before_epoch: true, secs: 11_644_473_600, nanos: 0 }));
    // Saturated seconds leave no room for the sub-second ticks.
    assert!(!filetime_fits(UnixTime { before_epoch: false, secs: 1u64 << 62, nanos: 999_999_999 }));
    // 2^63 seconds read as i64 are i64::MIN, whose negation overflows.
    assert!(!filetime_fits(UnixTime { before_epoch: true, secs: 1u64 << 63, nanos: 0 }));
    // u64::MAX seconds read as i64 are -1: the conversion goes through.
    assert!(filetime_fits(UnixTime { before_epoch: true, secs: u64::MAX, nanos: 0 }));
}

#[test]
fn ignore_contain_decides_from_the_marker_answer() {
    let mut f = IgnoreContainFilter::new(vec!["CACHEDIR.TAG".to_string()]);
    let mut dir = hit_at(r"C:\r\cache", r"C:\r");
    dir.is_dir = true;
    assert_eq!(f.evaluate_with(&dir, true), Verdict::Drop);
    assert!(f.is_pruned(r"C:\r\cache\x.bin"));
    assert_eq!(f.evaluate_with(&hit_at(r"C:\r\cache\x.bin", r"C:\r"), false), Verdict::Drop);
    assert_eq!(f.evaluate_with(&hit_at(r"C:\r\keep.txt", r"C:\r"), true), Verdict::Keep);
    let mut other = hit_at(r"C:\r\src", r"C:\r");
    other.is_dir = true;
    assert_eq!(f.evaluate_with(&other, false), Verdict::Keep);
    assert!(!f.is_pruned(r"C:\r\src\main.rs"));
}

#[test]
fn ignore_contain_without_markers_keeps_everything() {
    let mut f = IgnoreContainFilter::new(Vec::new());
    let mut dir = hit_at(r"C:\r\cache", r"C:\r");
    dir.is_dir = true;
    assert_eq!(f.evaluate_with(&dir, true), Verdict::Keep);
    assert!(!f.marker_in(r"C:\r\cache"));
}
