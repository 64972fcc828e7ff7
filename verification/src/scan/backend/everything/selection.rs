//! Backend selection, per search path:
//!
//! ```text
//! if force_legacy                    -> walk the file system (ForcedByFlag)
//! else if the path is not indexed    -> walk the file system (PathNotIndexed)
//! else if the translation gives up   -> walk the file system (QueryUnsupported)
//! else                               -> query the index
//! ```

use vstd::prelude::*;
use crate::scan::backend::BackendQuery;
use super::query::{TranslationGiveUp, TranslationInput, translate, query_matches, giveup_matches, input_times_convertible, strings_view};

verus! {

/// The backend chosen for one search path.
#[derive(Debug)]
pub enum BackendChoice {
    /// The index can serve this path with the translated query.
    Everything(BackendQuery),
    /// Walk the file system instead.
    Legacy { reason: FallbackReason },
}

/// Why a path is walked rather than queried.
#[derive(Debug, Clone, Copy, PartialEq, Eq, Structural)]
pub enum FallbackReason {
    /// `--filesystem-walker` was given.
    ForcedByFlag,
    /// The path lies outside what the index covers.
    PathNotIndexed,
    /// The translation gave up.
    QueryUnsupported(TranslationGiveUp),
}

/// Answers "is this path covered by the index?".
pub trait VolumeIndexProbe {
    /// Whether `is_indexed` may answer `b` for `path`. A probe that states
    /// nothing of its answers allows both.
    closed spec fn indexes(&self, path: Seq<char>, b: bool) -> bool {
        true
    }

    fn is_indexed(&self, path: &str) -> (b: bool)
        ensures
            self.indexes(path@, b);
}

/// A probe that reports every path as indexed.
#[derive(Debug, Clone, Copy, Default)]
pub struct AssumeIndexedProbe;

impl VolumeIndexProbe for AssumeIndexedProbe {
    closed spec fn indexes(&self, path: Seq<char>, b: bool) -> bool {
        b
    }

    fn is_indexed(&self, _path: &str) -> (r: bool)
        ensures
            r,
    {
        true
    }
}

/// `c` is the choice for `path` when the probe answered `indexed`.
pub open spec fn choice_ok(c: BackendChoice, path: Seq<char>, input: TranslationInput, indexed: bool, force_legacy: bool) -> bool {
    if force_legacy {
        c matches BackendChoice::Legacy { reason } && reason == FallbackReason::ForcedByFlag
    } else if !indexed {
        c matches BackendChoice::Legacy { reason } && reason == FallbackReason::PathNotIndexed
    } else {
        match c {
            BackendChoice::Everything(q) => query_matches(input, seq![path], q),
            BackendChoice::Legacy { reason } => match reason {
                FallbackReason::QueryUnsupported(g) => giveup_matches(input, g),
                _ => false,
            },
        }
    }
}

/// `c` is the choice for `path` for one of the probe's two possible answers.
pub open spec fn choice_possible(c: BackendChoice, path: Seq<char>, input: TranslationInput, force_legacy: bool) -> bool {
    choice_ok(c, path, input, true, force_legacy) || choice_ok(c, path, input, false, force_legacy)
}

/// `c` is the choice for `path` for an answer `probe` may give about it.
pub open spec fn indexed_choice<P: VolumeIndexProbe + ?Sized>(probe: &P, c: BackendChoice, path: Seq<char>, input: TranslationInput) -> bool {
    exists|b: bool| probe.indexes(path, b) && #[trigger] choice_ok(c, path, input, b, false)
}

/// The choice for `path` given the probe's answer.
pub fn classify_with(path: String, input: &TranslationInput, indexed: bool, force_legacy: bool) -> (r: BackendChoice)
    requires
        input_times_convertible(*input),
    ensures
        choice_ok(r, path@, *input, indexed, force_legacy),
{
    if force_legacy {
        return BackendChoice::Legacy { reason: FallbackReason::ForcedByFlag };
    }
    if !indexed {
        return BackendChoice::Legacy { reason: FallbackReason::PathNotIndexed };
    }
    let mut paths: Vec<String> = Vec::new();
    let ghost pv = path@;
    paths.push(path);
    assert(strings_view(paths@) =~= seq![pv]);
    match translate(input, paths) {
        Ok(query) => BackendChoice::Everything(query),
        Err(give_up) => BackendChoice::Legacy { reason: FallbackReason::QueryUnsupported(give_up) },
    }
}

/// The choice for one path: the probe is consulted only when the legacy
/// walker is not forced.
pub fn classify<P: VolumeIndexProbe + ?Sized>(path: String, input: &TranslationInput, probe: &P, force_legacy: bool) -> (r: BackendChoice)
    requires
        input_times_convertible(*input),
    ensures
        choice_possible(r, path@, *input, force_legacy),
        !force_legacy ==> indexed_choice(probe, r, path@, *input),
{
    if force_legacy {
        let r = classify_with(path, input, true, true);
        return r;
    }
    let indexed = probe.is_indexed(path.as_str());
    let ghost pv = path@;
    assert(probe.indexes(pv, indexed));
    let r = classify_with(path, input, indexed, false);
    assert(probe.indexes(pv, indexed) && choice_ok(r, pv, *input, indexed, false));
    r
}

/// One choice per path, in order; each path is decided on its own.
pub fn select_backend<P: VolumeIndexProbe + ?Sized>(paths: Vec<String>, input: &TranslationInput, probe: &P, force_legacy: bool) -> (r: Vec<BackendChoice>)
    requires
        input_times_convertible(*input),
    ensures
        r.len() == paths.len(),
        forall|i: int| 0 <= i < r.len() ==> choice_possible(#[trigger] r@[i], paths@[i]@, *input, force_legacy),
        !force_legacy ==> forall|i: int| 0 <= i < r.len() ==> #[trigger] indexed_choice(probe, r@[i], paths@[i]@, *input),
{
    let mut out: Vec<BackendChoice> = Vec::new();
    let mut i: usize = 0;
    while i < paths.len()
        invariant
            i <= paths.len(),
            out.len() == i,
            input_times_convertible(*input),
            forall|j: int| 0 <= j < i ==> choice_possible(#[trigger] out@[j], paths@[j]@, *input, force_legacy),
            !force_legacy ==> forall|j: int| 0 <= j < i ==> #[trigger] indexed_choice(probe, out@[j], paths@[j]@, *input),
        decreases paths.len() - i,
    {
        let p = paths[i].clone();
        assert(p@ == paths@[i as int]@);
        let c = classify(p, input, probe, force_legacy);
        let ghost prev = out@;
        out.push(c);
        proof {
            if !force_legacy {
                assert(indexed_choice(probe, c, paths@[i as int]@, *input));
                assert forall|j: int| 0 <= j < i + 1 implies #[trigger] indexed_choice(probe, out@[j], paths@[j]@, *input) by {
                    if j < i {
                        assert(out@[j] == prev[j]);
                    } else {
                        assert(out@[j] == c);
                    }
                }
            }
        }
        i += 1;
    }
    out
}

/// `--filesystem-walker` sends every path to the walker, whatever the probe
/// or the query would say.
pub proof fn lemma_forced_legacy_walks_every_path(c: BackendChoice, path: Seq<char>, input: TranslationInput)
    requires
        choice_possible(c, path, input, true),
    ensures
        c matches BackendChoice::Legacy { reason } && reason == FallbackReason::ForcedByFlag,
{
}

/// A path the probe reports as not indexed is walked.
pub proof fn lemma_unindexed_path_walks(c: BackendChoice, path: Seq<char>, input: TranslationInput)
    requires
        choice_ok(c, path, input, false, false),
    ensures
        c matches BackendChoice::Legacy { reason } && reason == FallbackReason::PathNotIndexed,
{
}

} // verus!
