//! A small public surface for benchmarks that drive a [`Pipeline`] with the
//! [`MockBackend`]: the types they need, a query good enough for a backend
//! that ignores it, and a sink that only counts.

use vstd::prelude::*;

pub use crate::filetypes::FileTypes;
pub use crate::scan::backend::{
    BackendError, BackendQuery, BackendSink, CancellationToken, CaseModifier, MockBackend,
    PatternScope, RawHit, RawHitView, SearchBackend, TranslatedPattern,
};
pub use crate::scan::post_filter::filters::depth::DepthFilter;
pub use crate::scan::post_filter::filters::type_filter::TypeFilter;
pub use crate::scan::post_filter::{Pipeline, PostFilterSink};

verus! {

/// A query with no roots, an empty case-insensitive base-name pattern and
/// no hints.
pub fn dummy_query() -> (q: BackendQuery)
    ensures
        q.paths@.len() == 0,
        q.pattern.everything_query@ == Seq::<char>::empty(),
        q.pattern.scope == PatternScope::Basename,
        q.pattern.case_modifier == CaseModifier::Nocase,
        q.and_patterns@.len() == 0,
        q.type_hint.is_none(),
        q.size_hint.is_none(),
        q.time_hint.is_none(),
        q.max_depth.is_none(),
        q.max_results.is_none(),
{
    BackendQuery {
        paths: Vec::new(),
        pattern: TranslatedPattern {
            everything_query: String::new(),
            scope: PatternScope::Basename,
            case_modifier: CaseModifier::Nocase,
        },
        and_patterns: Vec::new(),
        type_hint: None,
        size_hint: None,
        time_hint: None,
        max_depth: None,
        max_results: None,
    }
}

/// A sink that keeps no hit, only how many it was handed (saturating at
/// `usize::MAX`).
pub struct CountingSink(pub usize, pub Ghost<Seq<RawHitView>>);

impl CountingSink {
    pub fn new() -> (s: Self)
        ensures
            s.0 == 0,
            s.offered() == Seq::<RawHitView>::empty(),
    {
        CountingSink(0, Ghost(Seq::empty()))
    }
}

impl Default for CountingSink {
    fn default() -> (s: Self)
        ensures
            s.0 == 0,
            s.offered() == Seq::<RawHitView>::empty(),
    {
        CountingSink::new()
    }
}

impl BackendSink for CountingSink {
    closed spec fn offered(&self) -> Seq<RawHitView> {
        self.1@
    }

    closed spec fn answers(&self, hit: RawHitView, r: Result<(), BackendError>) -> bool {
        r is Ok
    }

    fn send(&mut self, hit: RawHit) -> (r: Result<(), BackendError>)
        ensures
            r is Ok,
            final(self).0 == if old(self).0 < usize::MAX { old(self).0 + 1 } else { old(self).0 as int },
    {
        self.1 = Ghost(self.1@.push(hit@));
        if self.0 < usize::MAX {
            self.0 = self.0 + 1;
        }
        Ok(())
    }
}

} // verus!
