//! `--min-depth` / `--max-depth` / `--exact-depth`: a comparison on the
//! hit's depth below its root.

use vstd::prelude::*;
use crate::scan::backend::{RawHit, RawHitView, hits_view};
use crate::scan::post_filter::{Filter, Verdict};

verus! {

pub struct DepthFilter {
    min_depth: Option<usize>,
    max_depth: Option<usize>,
}

/// Keep exactly the hits inside the inclusive depth window.
pub open spec fn depth_verdict(min_depth: Option<usize>, max_depth: Option<usize>, depth: usize) -> Verdict {
    if min_depth matches Some(m) && depth < m {
        Verdict::Drop
    } else if max_depth matches Some(m) && depth > m {
        Verdict::Drop
    } else {
        Verdict::Keep
    }
}

impl DepthFilter {
    pub fn new(min_depth: Option<usize>, max_depth: Option<usize>) -> (f: Self)
        ensures
            f.window() == (min_depth, max_depth),
            forall|h: RawHitView, v: Verdict| #[trigger] f.allows(h, v) == (v == depth_verdict(min_depth, max_depth, h.depth)),
            f.pending() == Seq::<RawHitView>::empty(),
    {
        DepthFilter { min_depth, max_depth }
    }

    pub closed spec fn window(&self) -> (Option<usize>, Option<usize>) {
        (self.min_depth, self.max_depth)
    }
}

impl Filter for DepthFilter {
    closed spec fn allows(&self, hit: RawHitView, v: Verdict) -> bool {
        v == depth_verdict(self.min_depth, self.max_depth, hit.depth)
    }

    closed spec fn pending(&self) -> Seq<RawHitView> {
        Seq::empty()
    }

    fn evaluate(&mut self, hit: &RawHit) -> (v: Verdict)
        ensures
            v == depth_verdict(old(self).window().0, old(self).window().1, hit.depth),
            *final(self) == *old(self),
    {
        if let Some(min) = self.min_depth {
            if hit.depth < min {
                return Verdict::Drop;
            }
        }
        if let Some(max) = self.max_depth {
            if hit.depth > max {
                return Verdict::Drop;
            }
        }
        Verdict::Keep
    }

    fn drain(&mut self) -> (r: Vec<RawHit>) {
        let r: Vec<RawHit> = Vec::new();
        assert(hits_view(r@) =~= Seq::<RawHitView>::empty());
        r
    }
}

} // verus!
