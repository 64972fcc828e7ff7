use fde::filetypes::FileTypes;
use fde::scan::post_filter::filters::extension::{ExtensionFilter, PatternSet};
use fde::scan::post_filter::filters::type_filter::TypeFilter;
use fde::scan::post_filter::filters::hidden_by_name::HiddenByNameFilter;
use std::sync::atomic::{AtomicUsize, Ordering};
use std::sync::Arc;

use fde::filter::SizeFilter;
use fde::scan::backend::{
    BackendError, BackendQuery, BackendSink, CancellationToken, CaseModifier, MockBackend,
    PatternScope, RawHit, SearchBackend, TranslatedPattern,
};
use fde::scan::post_filter::filters::depth::DepthFilter;
use fde::scan::post_filter::filters::max_results::MaxResultsFilter;
use fde::scan::post_filter::filters::prune::PruneFilter;
use fde::scan::post_filter::filters::same_filesystem::{SameFilesystemFilter, VolumeIdProvider};
use fde::scan::post_filter::filters::size::SizeConstraints;
use fde::scan::post_filter::{Filter, Pipeline, PipelineOutcome, PostFilterSink, Verdict};
use fde::scan::sink_adapter::RootRebaseSink;
use fde::winpath::{path_extension, path_starts_with};

fn hit(name: &str) -> RawHit {
    raw_hit(name, 1, false, "/")
}

fn raw_hit(path: &str, depth: usize, is_dir: bool, root: &str) -> RawHit {
    let extension = path_extension(path)
        .map(|s| s.to_ascii_lowercase())
        .unwrap_or_default();
    RawHit {
        path: path.to_string(),
        is_dir,
        size: 0,
        mtime: 0,
        ctime: 0,
        attributes: 0,
        extension,
        depth,
        search_root: root.to_string(),
    }
}

fn dummy_query() -> BackendQuery {
    BackendQuery {
        paths: vec![],
        pattern: TranslatedPattern {
            everything_query: String::new(),
            scope: PatternScope::Basename,
            case_modifier: CaseModifier::Nocase,
        },
        and_patterns: vec![],
        type_hint: None,
        size_hint: None,
        time_hint: None,
        max_depth: None,
        max_results: None,
    }
}

struct VecSink(Vec<RawHit>);
impl BackendSink for VecSink {
    fn send(&mut self, hit: RawHit) -> Result<(), BackendError> {
        self.0.push(hit);
        Ok(())
    }
}

struct AlwaysKeep;
impl Filter for AlwaysKeep {
    fn evaluate(&mut self, _: &RawHit) -> Verdict {
        Verdict::Keep
    }
    fn drain(&mut self) -> Vec<RawHit> {
        Vec::new()
    }
}

struct AlwaysDrop;
impl Filter for AlwaysDrop {
    fn evaluate(&mut self, _: &RawHit) -> Verdict {
        Verdict::Drop
    }
    fn drain(&mut self) -> Vec<RawHit> {
        Vec::new()
    }
}

struct CancelAfter(usize);
impl Filter for CancelAfter {
    fn evaluate(&mut self, _: &RawHit) -> Verdict {
        if self.0 == 0 {
            Verdict::Cancel
        } else {
            self.0 -= 1;
            Verdict::Keep
        }
    }
    fn drain(&mut self) -> Vec<RawHit> {
        Vec::new()
    }
}

struct SharedCounter(Arc<AtomicUsize>);
impl Filter for SharedCounter {
    fn evaluate(&mut self, _: &RawHit) -> Verdict {
        self.0.fetch_add(1, Ordering::Relaxed);
        Verdict::Keep
    }
    fn drain(&mut self) -> Vec<RawHit> {
        Vec::new()
    }
}

#[test]
fn drop_short_circuits_downstream_filters() {
    let n = Arc::new(AtomicUsize::new(0));
    let mut pipe = Pipeline::new(vec![
        Box::new(AlwaysKeep),
        Box::new(AlwaysDrop),
        Box::new(SharedCounter(Arc::clone(&n))),
    ]);
    assert_eq!(pipe.process(&hit("a")), PipelineOutcome::Drop);
    assert_eq!(pipe.process(&hit("b")), PipelineOutcome::Drop);
    assert_eq!(
        n.load(Ordering::Relaxed),
        0,
        "downstream of Drop must not run"
    );
}

#[test]
fn cancel_returns_forward_and_cancel() {
    let mut pipe = Pipeline::new(vec![Box::new(AlwaysKeep), Box::new(CancelAfter(0))]);
    assert_eq!(pipe.process(&hit("a")), PipelineOutcome::ForwardAndCancel);
}

#[test]
fn drain_runs_downstream_filters_on_buffered_hits() {
    struct ProducerDrain(Vec<RawHit>);
    impl Filter for ProducerDrain {
        fn evaluate(&mut self, _: &RawHit) -> Verdict {
            Verdict::Keep
        }
        fn drain(&mut self) -> Vec<RawHit> {
            std::mem::take(&mut self.0)
        }
    }
    struct DropOdd(usize);
    impl Filter for DropOdd {
        fn evaluate(&mut self, _: &RawHit) -> Verdict {
            let n = self.0;
            self.0 += 1;
            if n % 2 == 1 {
                Verdict::Drop
            } else {
                Verdict::Keep
            }
        }
        fn drain(&mut self) -> Vec<RawHit> {
            Vec::new()
        }
    }

    let mut pipe = Pipeline::new(vec![
        Box::new(ProducerDrain(vec![hit("a"), hit("b"), hit("c")])),
        Box::new(DropOdd(0)),
    ]);
    let mut out = Vec::new();
    pipe.drain_into(&mut out);
    assert_eq!(out.len(), 2, "two of three drained hits survive");
    assert_eq!(out[0].path, "a");
    assert_eq!(out[1].path, "c");
}

struct Producer(Vec<RawHit>);
impl Filter for Producer {
    fn evaluate(&mut self, _: &RawHit) -> Verdict {
        Verdict::Keep
    }
    fn drain(&mut self) -> Vec<RawHit> {
        std::mem::take(&mut self.0)
    }
}

#[test]
fn drain_cascade_stops_at_the_first_cancel() {
    let mut pipe = Pipeline::new(vec![
        Box::new(Producer(vec![hit("a"), hit("b"), hit("c")])),
        Box::new(CancelAfter(1)),
        Box::new(Producer(vec![hit("z")])),
    ]);
    let mut out = vec![hit("earlier")];
    pipe.drain_into(&mut out);
    let paths: Vec<&str> = out.iter().map(|h| h.path.as_str()).collect();
    assert_eq!(paths, vec!["earlier", "a", "b"]);
}

#[test]
fn drain_cascade_feeds_later_producers_in_chain_order() {
    let mut pipe = Pipeline::new(vec![
        Box::new(Producer(vec![hit("a")])),
        Box::new(AlwaysKeep),
        Box::new(Producer(vec![hit("b"), hit("c")])),
        Box::new(AlwaysKeep),
    ]);
    let mut out = Vec::new();
    pipe.drain_into(&mut out);
    let paths: Vec<&str> = out.iter().map(|h| h.path.as_str()).collect();
    assert_eq!(paths, vec!["a", "b", "c"]);
    let mut again = Vec::new();
    pipe.drain_into(&mut again);
    assert!(again.is_empty());
}

struct FakeProvider {
    same_volume_prefix: String,
}
impl VolumeIdProvider for FakeProvider {
    fn volume_id(&self, p: &str) -> Option<u64> {
        if path_starts_with(p, &self.same_volume_prefix) {
            Some(1)
        } else {
            Some(2)
        }
    }
}

fn sized(path: &str, size: u64, root: &str) -> RawHit {
    RawHit { size, ..raw_hit(path, 1, false, root) }
}

#[test]
fn pipeline_runs_filters_in_chain_order_via_mock_backend() {
    let root = "/C/repo";
    let staged = vec![
        sized("/C/repo/keep.bin", 2000, root),
        sized("/D/foreign.bin", 5000, root),
        sized("/C/repo/small.bin", 500, root),
    ];

    let filters: Vec<Box<dyn Filter>> = vec![
        Box::new(SameFilesystemFilter::new(Box::new(FakeProvider {
            same_volume_prefix: "/C".to_string(),
        }))),
        Box::new(SizeConstraints::new(vec![SizeFilter::from_string("+1k").unwrap()])),
    ];
    let pipeline = Pipeline::new(filters);

    let mut downstream = VecSink(Vec::new());
    let cancel = CancellationToken::new();
    let mut sink = PostFilterSink::new(pipeline, &mut downstream, &cancel);

    let backend = MockBackend::new(staged);
    backend
        .run(&dummy_query(), &mut sink, &cancel)
        .expect("no cancel expected");
    sink.finalize().unwrap();

    assert_eq!(downstream.0.len(), 1);
    assert_eq!(downstream.0[0].path, "/C/repo/keep.bin");
}

#[test]
fn max_results_cancels_the_backend_mid_stream() {
    let root = "/C/repo";
    let staged = vec![
        sized("/C/repo/a", 0, root),
        sized("/C/repo/b", 0, root),
        sized("/C/repo/c", 0, root),
        sized("/C/repo/d", 0, root),
    ];

    let cancel = CancellationToken::new();
    let filters: Vec<Box<dyn Filter>> = vec![Box::new(MaxResultsFilter::new(2, cancel.clone()))];
    let pipeline = Pipeline::new(filters);

    let mut downstream = VecSink(Vec::new());
    let mut sink = PostFilterSink::new(pipeline, &mut downstream, &cancel);

    let backend = MockBackend::new(staged);
    let err = backend
        .run(&dummy_query(), &mut sink, &cancel)
        .expect_err("backend must surface Cancelled");
    assert!(matches!(err, BackendError::Cancelled));
    assert!(cancel.is_cancelled());
    assert_eq!(
        downstream.0.len(),
        2,
        "exactly --max-results hits must be forwarded"
    );
}

struct BrokenPipeSink {
    delivered: usize,
    break_after: usize,
    received: Vec<String>,
}
impl BackendSink for BrokenPipeSink {
    fn send(&mut self, hit: RawHit) -> Result<(), BackendError> {
        if self.delivered >= self.break_after {
            return Err(BackendError::Other("broken pipe".to_string()));
        }
        self.delivered += 1;
        self.received.push(hit.path);
        Ok(())
    }
}

fn drive(
    staged: Vec<RawHit>,
    filters: Vec<Box<dyn Filter>>,
    cancel: &CancellationToken,
) -> (Vec<RawHit>, Option<BackendError>) {
    let pipeline = Pipeline::new(filters);
    let mut downstream = VecSink(Vec::new());
    let mut sink = PostFilterSink::new(pipeline, &mut downstream, cancel);
    let backend = MockBackend::new(staged);
    let err = backend.run(&dummy_query(), &mut sink, cancel).err();
    if err.is_none() {
        sink.finalize().expect("finalize on success path");
    }
    (downstream.0, err)
}

#[test]
fn prune_plus_max_results_surfaces_cancelled_from_finalize() {
    let root = r"C:\src";
    let staged = vec![
        raw_hit(r"C:\src\a", 1, true, root),
        raw_hit(r"C:\src\b", 1, true, root),
        raw_hit(r"C:\src\c", 1, true, root),
    ];

    let cancel = CancellationToken::new();
    let pipeline = Pipeline::new(vec![
        Box::new(PruneFilter::new()),
        Box::new(MaxResultsFilter::new(2, cancel.clone())),
    ]);
    let mut downstream = VecSink(Vec::new());
    let mut sink = PostFilterSink::new(pipeline, &mut downstream, &cancel);
    let backend = MockBackend::new(staged);

    backend
        .run(&dummy_query(), &mut sink, &cancel)
        .expect("backend returns Ok; prune Drops everything mid-stream");

    let finalize_err = sink
        .finalize()
        .expect_err("finalize must surface Cancelled once max_results fires during drain");
    assert!(matches!(finalize_err, BackendError::Cancelled));
    assert!(cancel.is_cancelled());
}

#[test]
fn multi_root_depth_is_per_root_not_global() {
    let root_a = r"C:\repo";
    let root_b = r"D:\projects\deep\tree";
    let staged = vec![
        raw_hit(r"C:\repo\file1.txt", 1, false, root_a),
        raw_hit(r"D:\projects\deep\tree\file2.txt", 1, false, root_b),
        raw_hit(r"C:\repo\a\file3.txt", 2, false, root_a),
    ];

    let filters: Vec<Box<dyn Filter>> = vec![Box::new(DepthFilter::new(Some(1), Some(1)))];

    let cancel = CancellationToken::new();
    let (kept, _err) = drive(staged, filters, &cancel);
    let paths: Vec<&str> = kept.iter().map(|h| h.path.as_str()).collect();
    assert_eq!(
        paths,
        vec![r"C:\repo\file1.txt", r"D:\projects\deep\tree\file2.txt"],
        "both roots' depth-1 hits survive; the depth-2 hit drops"
    );
}

#[test]
fn downstream_error_propagates_through_post_filter() {
    let root = r"C:\repo";
    let staged = vec![
        raw_hit(r"C:\repo\a.txt", 1, false, root),
        raw_hit(r"C:\repo\b.txt", 1, false, root),
        raw_hit(r"C:\repo\c.txt", 1, false, root),
        raw_hit(r"C:\repo\d.txt", 1, false, root),
        raw_hit(r"C:\repo\e.txt", 1, false, root),
    ];

    let pipeline = Pipeline::new(vec![]);
    let mut downstream = BrokenPipeSink {
        delivered: 0,
        break_after: 2,
        received: Vec::new(),
    };
    let cancel = CancellationToken::new();
    let mut sink = PostFilterSink::new(pipeline, &mut downstream, &cancel);
    let backend = MockBackend::new(staged);

    let err = backend
        .run(&dummy_query(), &mut sink, &cancel)
        .expect_err("downstream broken pipe must surface");
    assert!(matches!(err, BackendError::Other(_)));
    drop(sink);
    assert_eq!(downstream.delivered, 2, "exactly two hits delivered before break");
    assert_eq!(
        downstream.received,
        vec![r"C:\repo\a.txt".to_string(), r"C:\repo\b.txt".to_string()]
    );
}

#[test]
fn empty_pipeline_forwards_every_hit_unchanged() {
    let root = r"C:\repo";
    let staged: Vec<RawHit> = (0..16)
        .map(|i| raw_hit(&format!(r"C:\repo\f{i}.txt"), 1, false, root))
        .collect();
    let expected_paths: Vec<String> = staged.iter().map(|h| h.path.clone()).collect();

    let cancel = CancellationToken::new();
    let (kept, err) = drive(staged, vec![], &cancel);
    assert!(err.is_none());
    let got: Vec<String> = kept.into_iter().map(|h| h.path).collect();
    assert_eq!(got, expected_paths);
}

#[test]
fn forward_and_cancel_emits_hit_and_fires_token() {
    struct CancelEverything;
    impl Filter for CancelEverything {
        fn evaluate(&mut self, _: &RawHit) -> Verdict {
            Verdict::Cancel
        }
        fn drain(&mut self) -> Vec<RawHit> {
            Vec::new()
        }
    }
    let pipeline = Pipeline::new(vec![Box::new(CancelEverything)]);
    let mut downstream = VecSink(Vec::new());
    let cancel = CancellationToken::new();
    let mut sink = PostFilterSink::new(pipeline, &mut downstream, &cancel);

    let err = sink.send(hit("a")).expect_err("Cancel must surface as Err");
    assert!(matches!(err, BackendError::Cancelled));
    assert!(cancel.is_cancelled(), "cancel token must fire");
    drop(sink);
    assert_eq!(downstream.0.len(), 1, "the cancelling hit must be forwarded");
}

#[test]
fn external_cancel_short_circuits_next_send_without_forwarding() {
    let pipeline = Pipeline::new(vec![]);
    let mut downstream = VecSink(Vec::new());
    let cancel = CancellationToken::new();
    let mut sink = PostFilterSink::new(pipeline, &mut downstream, &cancel);

    sink.send(hit("warm")).expect("pre-cancel send must succeed");
    cancel.cancel();
    let err = sink
        .send(hit("after-cancel"))
        .expect_err("post-cancel send must surface Cancelled");
    assert!(matches!(err, BackendError::Cancelled));

    drop(sink);
    assert_eq!(downstream.0.len(), 1);
}

fn sample_hit(name: &str, root: &str) -> RawHit {
    raw_hit(&format!(r"{root}\{name}"), 1, false, root)
}

#[test]
fn mock_backend_streams_every_staged_hit_in_order() {
    let root = r"C:\repo";
    let staged = vec![
        sample_hit("a.txt", root),
        sample_hit("b.txt", root),
        sample_hit("c.txt", root),
    ];
    let backend = MockBackend::new(staged.clone());
    let mut sink = VecSink(Vec::new());
    let cancel = CancellationToken::new();

    backend.run(&dummy_query(), &mut sink, &cancel).unwrap();

    assert_eq!(sink.0.len(), staged.len());
    for (got, want) in sink.0.iter().zip(staged.iter()) {
        assert_eq!(got.path, want.path);
    }
}

#[test]
fn mock_backend_honors_cancellation_between_hits() {
    let root = r"C:\repo";
    let backend = MockBackend::new(vec![sample_hit("a.txt", root), sample_hit("b.txt", root)]);
    let cancel = CancellationToken::new();
    cancel.cancel();
    let mut sink = VecSink(Vec::new());

    let err = backend
        .run(&dummy_query(), &mut sink, &cancel)
        .expect_err("cancelled token must surface");
    assert!(matches!(err, BackendError::Cancelled));
    assert!(sink.0.is_empty(), "no hits should leak after cancel");
}

#[test]
fn search_backend_is_object_safe() {
    let root = r"C:\repo";
    let backend: Box<dyn SearchBackend> = Box::new(MockBackend::new(vec![sample_hit("x.txt", root)]));
    let mut sink = VecSink(Vec::new());
    let cancel = CancellationToken::new();
    backend.run(&dummy_query(), &mut sink, &cancel).unwrap();
    assert_eq!(sink.0.len(), 1);
}

#[test]
fn root_rebase_sink_rewrites_path_and_search_root() {
    let query_root = r"D:\real\repo";
    let logical_root = r"D:\links\repo";
    let mut downstream = VecSink(Vec::new());
    let mut sink = RootRebaseSink::new(&mut downstream, query_root, logical_root.to_string());

    sink.send(raw_hit(r"D:\real\repo\sub\a.py", 1, false, query_root)).unwrap();
    drop(sink);

    assert_eq!(downstream.0.len(), 1);
    assert_eq!(downstream.0[0].path, r"D:\links\repo\sub\a.py");
    assert_eq!(downstream.0[0].search_root, logical_root);
}

#[test]
fn root_rebase_sink_rejects_hits_outside_query_root() {
    let query_root = r"D:\real\repo";
    let mut downstream = VecSink(Vec::new());
    let mut sink = RootRebaseSink::new(&mut downstream, query_root, r"D:\links\repo".to_string());

    let err = sink
        .send(raw_hit(r"D:\other\a.py", 1, false, r"D:\other"))
        .expect_err("out-of-root backend hit must fail");
    assert!(matches!(err, BackendError::Other(_)));
    drop(sink);
    assert!(downstream.0.is_empty());
}

#[test]
fn counting_sink_and_dummy_query_drive_a_pipeline() {
    let cancel = CancellationToken::new();
    let mut counter = fde::bench_support::CountingSink::default();
    let mut sink = PostFilterSink::new(Pipeline::new(vec![]), &mut counter, &cancel);
    let backend = MockBackend::new(vec![hit("a"), hit("b"), hit("c")]);
    backend.run(&fde::bench_support::dummy_query(), &mut sink, &cancel).unwrap();
    sink.finalize().unwrap();
    assert_eq!(counter.0, 3);
}

fn ext_set(pattern: &str) -> PatternSet {
    PatternSet::new(&[format!("(?i){pattern}")]).unwrap()
}

#[test]
fn depth_extension_type_combo_keeps_only_intersection() {
    let root = r"C:\repo";
    let staged = vec![
        raw_hit(r"C:\repo\top.rs", 1, false, root),
        raw_hit(r"C:\repo\src\lib.rs", 2, false, root),
        raw_hit(r"C:\repo\src\main.rs", 2, false, root),
        raw_hit(r"C:\repo\src\notes.txt", 2, false, root),
        raw_hit(r"C:\repo\src", 1, true, root),
        raw_hit(r"C:\repo\src\sub", 2, true, root),
        raw_hit(r"C:\repo\src\sub\deep.rs", 3, false, root),
    ];
    let filters: Vec<Box<dyn Filter>> = vec![
        Box::new(DepthFilter::new(Some(2), Some(2))),
        Box::new(ExtensionFilter::new(ext_set(r"\.rs$"))),
        Box::new(TypeFilter::new(FileTypes {
            files: true,
            ..Default::default()
        })),
    ];
    let cancel = CancellationToken::new();
    let (kept, err) = drive(staged, filters, &cancel);
    assert!(err.is_none(), "expected no backend error, got {err:?}");
    let names: Vec<&str> = kept.iter().map(|h| h.path.as_str()).collect();
    assert_eq!(names, vec![r"C:\repo\src\lib.rs", r"C:\repo\src\main.rs"]);
}

#[test]
fn prune_buffers_then_drains_through_downstream_extension_filter() {
    let root = r"C:\src";
    let staged = vec![
        raw_hit(r"C:\src\a\file1.txt", 2, false, root),
        raw_hit(r"C:\src\a", 1, true, root),
        raw_hit(r"C:\src\a\sub\file2.txt", 3, false, root),
        raw_hit(r"C:\src\b", 1, true, root),
        raw_hit(r"C:\src\b\file3.txt", 2, false, root),
        raw_hit(r"C:\src\c", 1, true, root),
        raw_hit(r"C:\src\standalone.txt", 1, false, root),
    ];
    let filters: Vec<Box<dyn Filter>> = vec![
        Box::new(PruneFilter::new()),
        Box::new(ExtensionFilter::new(ext_set(r"\.txt$"))),
    ];
    let cancel = CancellationToken::new();
    let (kept, err) = drive(staged, filters, &cancel);
    assert!(err.is_none(), "expected no backend error, got {err:?}");
    let paths: Vec<&str> = kept.iter().map(|h| h.path.as_str()).collect();
    assert_eq!(paths, vec![r"C:\src\standalone.txt"]);
}

#[test]
fn hidden_by_name_drops_before_extension_filter_sees_hit() {
    let root = r"C:\repo";
    let staged = vec![
        raw_hit(r"C:\repo\src\lib.rs", 2, false, root),
        raw_hit(r"C:\repo\.git\config", 2, false, root),
        raw_hit(r"C:\repo\.gitignore", 1, false, root),
        raw_hit(r"C:\repo\src\.hidden.rs", 2, false, root),
        raw_hit(r"C:\repo\some.dot.dir\plain.rs", 2, false, root),
    ];
    let filters: Vec<Box<dyn Filter>> = vec![
        Box::new(HiddenByNameFilter::new(true)),
        Box::new(ExtensionFilter::new(ext_set(r"\.rs$"))),
    ];
    let cancel = CancellationToken::new();
    let (kept, _err) = drive(staged, filters, &cancel);
    let names: Vec<&str> = kept.iter().map(|h| h.path.as_str()).collect();
    assert_eq!(names, vec![r"C:\repo\src\lib.rs", r"C:\repo\some.dot.dir\plain.rs"]);
}

#[test]
fn offer_checked_hands_over_nothing_once_the_token_is_raised() {
    let mut sink = VecSink(Vec::new());
    let r = fde::scan::backend::offer_checked(&mut sink, hit("a"), true);
    assert!(matches!(r, Err(BackendError::Cancelled)));
    assert!(sink.0.is_empty());
    let r = fde::scan::backend::offer_checked(&mut sink, hit("b"), false);
    assert!(r.is_ok());
    assert_eq!(sink.0.len(), 1);
    assert_eq!(sink.0[0].path, "b");
}

#[test]
fn mock_backend_with_nothing_staged_answers_ok() {
    let backend = MockBackend::new(Vec::new());
    let mut sink = VecSink(Vec::new());
    let cancel = CancellationToken::new();
    assert!(backend.run(&dummy_query(), &mut sink, &cancel).is_ok());
    assert!(sink.0.is_empty());
}

#[test]
fn send_checked_follows_the_token_answer() {
    let mut downstream = VecSink(Vec::new());
    let cancel = CancellationToken::new();
    {
        let mut sink = PostFilterSink::new(Pipeline::new(vec![]), &mut downstream, &cancel);
        assert!(matches!(sink.send_checked(hit("a"), true), Err(BackendError::Cancelled)));
        assert!(sink.send_checked(hit("b"), false).is_ok());
        assert!(sink.forward_checked(hit("c"), false).is_ok());
        assert!(matches!(sink.forward_checked(hit("d"), true), Err(BackendError::Cancelled)));
    }
    let paths: Vec<&str> = downstream.0.iter().map(|h| h.path.as_str()).collect();
    assert_eq!(paths, vec!["b", "c"]);
}

#[test]
fn send_checked_drops_what_the_pipeline_drops() {
    let mut downstream = VecSink(Vec::new());
    let cancel = CancellationToken::new();
    {
        let mut sink = PostFilterSink::new(Pipeline::new(vec![Box::new(AlwaysDrop)]), &mut downstream, &cancel);
        assert!(sink.send_checked(hit("a"), false).is_ok());
    }
    assert!(downstream.0.is_empty());
}
