//! Search-backend surface: what a backend is asked (`BackendQuery`), what it
//! streams back (`RawHit`), where the hits go (`BackendSink`), and how a run
//! is stopped early (`CancellationToken`).

use std::sync::atomic::{AtomicBool, Ordering};
use std::sync::Arc;
use vstd::prelude::*;

pub mod everything;

use everything::error::{EverythingError, message_text};

verus! {

// ---------------------------------------------------------------------------
// Query inputs
// ---------------------------------------------------------------------------

/// Description of one backend invocation: canonical absolute search roots,
/// the translated patterns and the hints that may be pushed down.
#[derive(Debug)]
pub struct BackendQuery {
    /// Canonicalized absolute search roots.
    pub paths: Vec<String>,
    /// Primary translated pattern.
    pub pattern: TranslatedPattern,
    /// `--and` patterns, each already translated.
    pub and_patterns: Vec<TranslatedPattern>,
    /// File-vs-directory hint; the post-filter still re-checks.
    pub type_hint: Option<EntryTypeHint>,
    pub size_hint: Option<SizeRange>,
    pub time_hint: Option<TimeRange>,
    pub max_depth: Option<usize>,
    pub max_results: Option<usize>,
}

/// A pattern ready for the index query: the query fragment, whether it
/// matches the base name or the full path, and the case mode.
#[derive(Debug)]
pub struct TranslatedPattern {
    /// Query fragment, e.g. `regex:"^foo$"`, `wildcards:*.rs`, or a phrase.
    pub everything_query: String,
    pub scope: PatternScope,
    pub case_modifier: CaseModifier,
}

#[derive(Debug, Clone, Copy, PartialEq, Eq, Structural)]
pub enum PatternScope {
    /// Match the base name only (`nopath:`).
    Basename,
    /// Match the full path (`path:`).
    FullPath,
}

#[derive(Debug, Clone, Copy, PartialEq, Eq, Structural)]
pub enum CaseModifier {
    /// Case-sensitive (`case:`).
    Case,
    /// Case-insensitive (`nocase:`).
    Nocase,
}

#[derive(Debug, Clone, Copy, PartialEq, Eq, Structural)]
pub enum EntryTypeHint {
    File,
    Directory,
}

/// Size range in bytes; `None` on a side means unbounded on that side.
#[derive(Debug, Clone, Copy, PartialEq, Eq, Structural)]
pub struct SizeRange {
    pub min_bytes: Option<u64>,
    pub max_bytes: Option<u64>,
}

/// Time range in FILETIME ticks (100 ns since 1601-01-01 UTC); `None` on a
/// side means unbounded on that side.
#[derive(Debug, Clone, Copy, PartialEq, Eq, Structural)]
pub struct TimeRange {
    pub min_filetime: Option<i64>,
    pub max_filetime: Option<i64>,
}

/// The value of a translated pattern, as contracts see it.
pub struct PatternView {
    pub query: Seq<char>,
    pub scope: PatternScope,
    pub case_modifier: CaseModifier,
}

impl View for TranslatedPattern {
    type V = PatternView;

    open spec fn view(&self) -> PatternView {
        PatternView { query: self.everything_query@, scope: self.scope, case_modifier: self.case_modifier }
    }
}

pub open spec fn patterns_view(v: Seq<TranslatedPattern>) -> Seq<PatternView> {
    v.map_values(|p: TranslatedPattern| p@)
}

impl TranslatedPattern {
    /// A copy of this pattern.
    pub fn duplicate(&self) -> (r: Self)
        ensures
            r@ == self@,
    {
        TranslatedPattern {
            everything_query: self.everything_query.clone(),
            scope: self.scope,
            case_modifier: self.case_modifier,
        }
    }
}

// ---------------------------------------------------------------------------
// Streaming hit type
// ---------------------------------------------------------------------------

/// One search hit. Every field is filled by the backend so that the
/// post-filter never has to go back to the file system.
#[derive(Debug)]
pub struct RawHit {
    /// Absolute canonical path.
    pub path: String,
    pub is_dir: bool,
    pub size: u64,
    /// FILETIME of the last modification.
    pub mtime: i64,
    /// FILETIME of the creation.
    pub ctime: i64,
    /// Win32 `FILE_ATTRIBUTE_*` bits.
    pub attributes: u32,
    /// Extension without the leading dot, or empty.
    pub extension: String,
    /// Depth below the search root that produced the hit.
    pub depth: usize,
    /// The search root that produced the hit.
    pub search_root: String,
}

/// The value of a hit, as contracts see it.
pub struct RawHitView {
    pub path: Seq<char>,
    pub is_dir: bool,
    pub size: u64,
    pub mtime: i64,
    pub ctime: i64,
    pub attributes: u32,
    pub extension: Seq<char>,
    pub depth: usize,
    pub search_root: Seq<char>,
}

impl View for RawHit {
    type V = RawHitView;

    open spec fn view(&self) -> RawHitView {
        RawHitView {
            path: self.path@,
            is_dir: self.is_dir,
            size: self.size,
            mtime: self.mtime,
            ctime: self.ctime,
            attributes: self.attributes,
            extension: self.extension@,
            depth: self.depth,
            search_root: self.search_root@,
        }
    }
}

impl Clone for RawHit {
    fn clone(&self) -> (r: Self)
        ensures
            r@ == self@,
    {
        RawHit {
            path: self.path.clone(),
            is_dir: self.is_dir,
            size: self.size,
            mtime: self.mtime,
            ctime: self.ctime,
            attributes: self.attributes,
            extension: self.extension.clone(),
            depth: self.depth,
            search_root: self.search_root.clone(),
        }
    }
}

pub open spec fn hits_view(v: Seq<RawHit>) -> Seq<RawHitView> {
    v.map_values(|h: RawHit| h@)
}

// ---------------------------------------------------------------------------
// Sink + cancellation + error
// ---------------------------------------------------------------------------

/// Streaming sink that a backend pushes hits into.
pub trait BackendSink {
    /// Every hit this sink has been handed so far, in order. A sink that
    /// keeps no record of them may leave it empty.
    closed spec fn offered(&self) -> Seq<RawHitView> {
        Seq::empty()
    }

    /// Whether `send`, in this state, may answer `r` for `hit`. A sink that
    /// states nothing of its answers allows every one.
    closed spec fn answers(&self, hit: RawHitView, r: Result<(), BackendError>) -> bool {
        true
    }

    fn send(&mut self, hit: RawHit) -> (r: Result<(), BackendError>)
        ensures
            final(self).offered() == old(self).offered().push(hit@),
            old(self).answers(hit@, r);
}

/// Shared stop flag. Clones share one flag: once any clone is cancelled,
/// every clone reports it.
#[derive(Debug, Clone)]
pub struct CancellationToken {
    flag: Arc<AtomicBool>,
}

impl CancellationToken {
    /// A token that is not cancelled.
    pub fn new() -> Self {
        CancellationToken { flag: Arc::new(AtomicBool::new(false)) }
    }

    /// Raise the flag for this token and all its clones.
    pub fn cancel(&self) {
        self.flag.store(true, Ordering::Release);
    }

    /// Whether the flag has been raised, by this token or by a clone. Other
    /// threads may raise it at any time, so each call may answer anew.
    pub fn is_cancelled(&self) -> bool {
        self.flag.load(Ordering::Acquire)
    }
}

impl Default for CancellationToken {
    fn default() -> Self {
        CancellationToken::new()
    }
}

#[derive(Debug)]
pub enum BackendError {
    /// Cooperative cancellation: a token fired, or the downstream consumer
    /// stopped reading.
    Cancelled,
    /// The index service failed, with the SDK's structured error.
    Everything(EverythingError),
    /// Anything else, with its message.
    Other(String),
}

impl BackendError {
    /// The text shown for this error.
    pub fn message(&self) -> (s: String)
        ensures
            self is Cancelled ==> s@ == "backend run cancelled"@,
            self matches BackendError::Everything(e) ==> s@ == message_text(*e),
            self matches BackendError::Other(m) ==> s@ == m@,
    {
        match self {
            BackendError::Cancelled => String::from_str("backend run cancelled"),
            BackendError::Everything(e) => e.message(),
            BackendError::Other(m) => m.clone(),
        }
    }
}

// ---------------------------------------------------------------------------
// Backends
// ---------------------------------------------------------------------------

/// A search backend streams the hits of a query into a sink.
pub trait SearchBackend: Send + Sync {
    fn run(&self, query: &BackendQuery, sink: &mut dyn BackendSink, cancel: &CancellationToken) -> (r: Result<(), BackendError>);
}

/// Deterministic backend that replays a pre-built list of hits and ignores
/// the query.
#[derive(Debug, Clone, Default)]
pub struct MockBackend {
    hits: Vec<RawHit>,
}

impl MockBackend {
    pub fn new(hits: Vec<RawHit>) -> (r: Self)
        ensures
            r.staged() == hits_view(hits@),
    {
        MockBackend { hits }
    }

    /// The hits that a run replays, in order.
    pub closed spec fn staged(&self) -> Seq<RawHitView> {
        hits_view(self.hits@)
    }
}

/// Hand `hit` to `sink` unless the token was seen raised (`cancelled`):
/// the step a replaying backend takes for each hit, given what the token
/// answered. A raised token stops the run with `Cancelled` and hands over
/// nothing; otherwise the sink gets the hit and its answer is returned.
pub fn offer_checked<S: BackendSink + ?Sized>(sink: &mut S, hit: RawHit, cancelled: bool) -> (r: Result<(), BackendError>)
    ensures
        cancelled ==> (r matches Err(BackendError::Cancelled)) && final(sink).offered() == old(sink).offered(),
        !cancelled ==> final(sink).offered() == old(sink).offered().push(hit@) && old(sink).answers(hit@, r),
{
    if cancelled {
        return Err(BackendError::Cancelled);
    }
    sink.send(hit)
}

/// What a replaying run did with the hits `all`: it handed the sink the
/// first `k` of them, all of them when it answers `Ok`; with none to replay
/// it answers `Ok`; an error other than `Cancelled` is the sink's answer to
/// the last hit handed over.
pub open spec fn replayed(all: Seq<RawHitView>, before: Seq<RawHitView>, after: Seq<RawHitView>, k: int, r: Result<(), BackendError>) -> bool {
    &&& 0 <= k <= all.len()
    &&& after == before + all.take(k)
    &&& r is Ok ==> k == all.len()
    &&& all.len() == 0 ==> r is Ok
    &&& (r is Err && !(r matches Err(BackendError::Cancelled))) ==> k >= 1
}

impl SearchBackend for MockBackend {
    /// Replay the staged hits into `sink`, in order, each through
    /// `offer_checked` with the token's answer read just before it; the run
    /// stops at the first error.
    fn run(&self, _query: &BackendQuery, sink: &mut dyn BackendSink, cancel: &CancellationToken) -> (r: Result<(), BackendError>)
        ensures
            exists|k: int| #[trigger] replayed(self.staged(), old(sink).offered(), final(sink).offered(), k, r),
    {
        let mut i: usize = 0;
        while i < self.hits.len()
            invariant
                i <= self.hits.len(),
                sink.offered() == old(sink).offered() + self.staged().take(i as int),
            decreases self.hits.len() - i,
        {
            let cancelled = cancel.is_cancelled();
            let hit = self.hits[i].clone();
            let res = offer_checked(sink, hit, cancelled);
            if cancelled {
                assert(replayed(self.staged(), old(sink).offered(), sink.offered(), i as int, res));
                return res;
            }
            assert(self.staged().take(i + 1) =~= self.staged().take(i as int).push(self.hits@[i as int]@));
            assert(sink.offered() =~= old(sink).offered() + self.staged().take(i + 1));
            i += 1;
            if res.is_err() {
                assert(replayed(self.staged(), old(sink).offered(), sink.offered(), i as int, res));
                return res;
            }
        }
        assert(self.staged().take(i as int) =~= self.staged());
        assert(old(sink).offered() + self.staged().take(0) =~= old(sink).offered());
        assert(replayed(self.staged(), old(sink).offered(), sink.offered(), i as int, Ok(())));
        Ok(())
    }
}

} // verus!
