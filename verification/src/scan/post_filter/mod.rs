//! Post-filter pipeline: applies the command-line filters to the hits a
//! backend streams, in a fixed chain order, and forwards the survivors.

use vstd::prelude::*;
use crate::scan::backend::{RawHit, RawHitView, hits_view};

pub mod chain;
pub mod filters;
pub mod ignore_cache;
pub mod pipeline;
pub mod sink;

pub use chain::ChainFilter;
pub use pipeline::{Pipeline, PipelineOutcome};
pub use sink::PostFilterSink;

verus! {

/// Per-hit decision of one filter.
#[derive(Debug, Clone, Copy, PartialEq, Eq, Structural)]
pub enum Verdict {
    /// Forward the hit and keep going.
    Keep,
    /// Discard the hit; keep accepting more.
    Drop,
    /// Forward the hit, then stop the backend.
    Cancel,
}

/// One stage of the post-filter pipeline. Stateful filters keep their state
/// in `self`.
pub trait Filter: Send {
    /// Whether `evaluate`, in this state, may answer `v` for `hit`. A
    /// filter that states nothing of its answers allows every verdict.
    closed spec fn allows(&self, hit: RawHitView, v: Verdict) -> bool {
        true
    }

    /// The hits this filter holds back for `drain`, in drain order; none
    /// unless the filter says otherwise.
    closed spec fn pending(&self) -> Seq<RawHitView> {
        Seq::empty()
    }

    fn evaluate(&mut self, hit: &RawHit) -> (v: Verdict)
        ensures
            old(self).allows(hit@, v);

    /// Hand out the held-back hits; called once the backend run is over.
    fn drain(&mut self) -> (r: Vec<RawHit>)
        ensures
            hits_view(r@) == old(self).pending(),
            final(self).pending() == Seq::<RawHitView>::empty();
}

} // verus!
