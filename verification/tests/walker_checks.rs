use fde::filetypes::FileTypes;
use fde::filter::{SizeFilter, TimeFilter, UnixTime};
use fde::scan::legacy::{
    after_send, below_min_depth, name_rejected, size_rejected, time_rejected, type_rejected, EntryKind,
    SearchPattern, WalkAction,
};
use fde::scan::post_filter::filters::extension::PatternSet;
use fde::scan::post_filter::ignore_cache::gitconfig::{core_excludes_file, worktree_gitdir, ExcludesFile};

#[test]
fn min_depth_leaves_out_shallow_and_unknown_depths() {
    assert!(!below_min_depth(None, None));
    assert!(below_min_depth(Some(2), Some(1)));
    assert!(!below_min_depth(Some(2), Some(2)));
    assert!(below_min_depth(Some(1), None));
}

#[test]
fn walker_type_checks() {
    let files = FileTypes { files: true, ..Default::default() };
    assert!(!type_rejected(&files, Some(EntryKind::File), false, false));
    assert!(type_rejected(&files, Some(EntryKind::Directory), false, false));
    assert!(type_rejected(&files, None, false, false));
    let exec = FileTypes { files: true, executables_only: true, ..Default::default() };
    assert!(type_rejected(&exec, Some(EntryKind::File), false, false));
    assert!(!type_rejected(&exec, Some(EntryKind::File), true, false));
    let all = FileTypes {
        files: true,
        directories: true,
        symlinks: true,
        block_devices: true,
        char_devices: true,
        sockets: true,
        pipes: true,
        ..Default::default()
    };
    assert!(type_rejected(&all, Some(EntryKind::Other), false, false));
}

#[test]
fn walker_size_and_time_checks() {
    let min = [SizeFilter::Min(10)];
    assert!(!size_rejected(&[], false, None));
    assert!(size_rejected(&min, false, Some(100)));
    assert!(size_rejected(&min, true, None));
    assert!(size_rejected(&min, true, Some(5)));
    assert!(!size_rejected(&min, true, Some(10)));
    let t = |secs| UnixTime { before_epoch: false, secs, nanos: 0 };
    let before = [TimeFilter::Before(t(100))];
    assert!(!time_rejected(&[], None));
    assert!(time_rejected(&before, None));
    assert!(!time_rejected(&before, Some(t(99))));
    assert!(time_rejected(&before, Some(t(100))));
    assert_eq!(after_send(false, true), WalkAction::Quit);
    assert_eq!(after_send(true, true), WalkAction::Skip);
    assert_eq!(after_send(true, false), WalkAction::Continue);
}

#[test]
fn gitconfig_core_excludes_file_is_found() {
    let text = "[user]\n\tname = x\n\texcludesfile = /not/this\n[Core]\n  # comment\n  editor = vim\n  excludesFile = \"~/.gitignore_global\"\n";
    assert_eq!(
        core_excludes_file(text),
        Some(ExcludesFile::InHome(".gitignore_global".to_string()))
    );
    assert_eq!(
        core_excludes_file("[core]\nexcludesfile=C:\\cfg\\ignore\n"),
        Some(ExcludesFile::Path("C:\\cfg\\ignore".to_string()))
    );
    assert_eq!(core_excludes_file("[core]\n; excludesfile = x\n"), None);
    assert_eq!(core_excludes_file(""), None);
}

#[test]
fn name_checks_need_every_pattern_then_the_extension() {
    let patterns = vec![
        SearchPattern::new("foo").unwrap(),
        SearchPattern::new("bar$").unwrap(),
    ];
    let exts = PatternSet::new(&[r"(?i)^.+\.rs$".to_string()]).unwrap();
    assert!(!name_rejected(&patterns, "foobar", None, Some("foobar")));
    assert!(name_rejected(&patterns, "barfoo", None, Some("barfoo")));
    assert!(!name_rejected(&patterns, "foobar", Some(&exts), Some("x.rs")));
    assert!(name_rejected(&patterns, "foobar", Some(&exts), Some("x.txt")));
    assert!(name_rejected(&[], "anything", Some(&exts), None));
    assert!(!name_rejected(&[], "anything", None, None));
}

#[test]
fn worktree_file_names_its_gitdir() {
    assert_eq!(
        worktree_gitdir("gitdir: C:\\repo\\.git\\worktrees\\w1\r\n"),
        Some("C:\\repo\\.git\\worktrees\\w1".to_string())
    );
    assert_eq!(worktree_gitdir("# note\ngitdir:../x\ngitdir: y\n"), Some("../x".to_string()));
    assert_eq!(worktree_gitdir(" gitdir: indented\n"), None);
    assert_eq!(worktree_gitdir(""), None);
}
