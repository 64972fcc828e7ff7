use fde::scan::path_projection::{PathProjector, ProjectedPath, SearchRoot};

fn root(canonical: &str, display: &str) -> SearchRoot {
    SearchRoot {
        canonical: canonical.to_string(),
        display: display.to_string(),
    }
}

#[test]
fn projects_relative_root_back_onto_canonical_hit() {
    let roots = vec![root(r"C:\repo", r"./")];
    let p = PathProjector::owned(roots, false, false);
    let out = p.project_for_output(r"C:\repo\src\main.rs");
    assert_eq!(out.as_str(), r"./src\main.rs");
}

#[test]
fn strip_cwd_prefix_drops_leading_dot_slash() {
    let roots = vec![root(r"C:\repo", r"./")];
    let p = PathProjector::owned(roots, false, true);
    let out = p.project_for_output(r"C:\repo\src\main.rs");
    assert_eq!(out.as_str(), r"src\main.rs");
}

#[test]
fn absolute_paths_borrow_raw_path_zero_alloc() {
    let roots = vec![root(r"C:\repo", r"./")];
    let p = PathProjector::owned(roots, true, false);
    let raw = r"C:\repo\src\main.rs";
    let out = p.project_for_output(raw);
    assert!(matches!(out, ProjectedPath::Borrowed(_)), "must be borrowed");
    assert_eq!(out.as_str(), raw);
}

#[test]
fn absolute_display_root_takes_borrowed_fast_path() {
    let roots = vec![root(r"C:\Windows", r"C:\Windows")];
    let p = PathProjector::owned(roots, false, false);
    let raw = r"C:\Windows\System32\cmd.exe";
    let out = p.project_for_output(raw);
    assert!(matches!(out, ProjectedPath::Borrowed(_)), "absolute root → borrow");
    assert_eq!(out.as_str(), raw);
}

#[test]
fn projects_non_dot_relative_root() {
    let roots = vec![root(r"C:\repo\src", r"src")];
    let p = PathProjector::owned(roots, false, false);
    let out = p.project_for_output(r"C:\repo\src\bin\fd.rs");
    assert_eq!(out.as_str(), r"src\bin\fd.rs");
}

#[test]
fn longest_canonical_root_wins_for_nested_roots() {
    let roots = vec![
        root(r"C:\repo", r"./"),
        root(r"C:\repo\vendor\thirdparty", r"vendor/thirdparty"),
    ];
    let p = PathProjector::owned(roots, false, false);
    let out = p.project_for_output(r"C:\repo\vendor\thirdparty\lib\x.rs");
    assert_eq!(out.as_str(), r"vendor/thirdparty\lib\x.rs");
}

#[test]
fn unc_search_root_round_trips() {
    let roots = vec![root(r"\\server\share", r"\\server\share")];
    let p = PathProjector::owned(roots, false, false);
    let raw = r"\\server\share\dir\file.txt";
    let out = p.project_for_output(raw);
    assert!(matches!(out, ProjectedPath::Borrowed(_)));
    assert_eq!(out.as_str(), raw);
}

#[test]
fn verbatim_long_path_prefix_passes_through() {
    let roots = vec![root(r"\\?\C:\very\long\root", r"\\?\C:\very\long\root")];
    let p = PathProjector::owned(roots, false, false);
    let raw = r"\\?\C:\very\long\root\sub\f.txt";
    let out = p.project_for_output(raw);
    assert!(matches!(out, ProjectedPath::Borrowed(_)));
    assert_eq!(out.as_str(), raw);
}

#[test]
fn projector_default_arm_reproduces_legacy_strip_behavior() {
    let roots = vec![root(r"C:\repo", r"./")];
    let raw = r"C:\repo\src\main.rs";

    let keep = PathProjector::owned(roots.clone(), false, false);
    assert_eq!(
        keep.project_for_output(raw).as_str(),
        r"./src\main.rs",
        "default arm must keep leading './' to match legacy fd output",
    );

    let strip = PathProjector::owned(roots, false, true);
    assert_eq!(
        strip.project_for_output(raw).as_str(),
        r"src\main.rs",
        "strip arm must drop leading './' to match legacy fd output",
    );
}

#[test]
fn path_outside_roots_falls_back_to_raw() {
    let roots = vec![root(r"C:\repo", r"./")];
    let p = PathProjector::owned(roots, false, false);
    let raw = r"C:\elsewhere\x.txt";
    let out = p.project_for_output(raw);
    assert!(matches!(out, ProjectedPath::Borrowed(_)));
    assert_eq!(out.as_str(), raw);
}

#[test]
fn projection_new_takes_roots_by_slice() {
    let roots = [root(r"D:\data", r"data")];
    let p = PathProjector::new(&roots, false, false);
    assert_eq!(p.project_for_output(r"D:\data\a\b.txt").as_str(), r"data\a\b.txt");
}
