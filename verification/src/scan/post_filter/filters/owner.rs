//! `--owner`: Windows has no owner dimension on this path, so every hit is
//! kept.

use vstd::prelude::*;
use crate::scan::backend::{RawHit, RawHitView, hits_view};
use crate::scan::post_filter::{Filter, Verdict};

verus! {

pub struct OwnerFilter;

impl OwnerFilter {
    pub fn new() -> Self {
        OwnerFilter
    }
}

impl Default for OwnerFilter {
    fn default() -> Self {
        OwnerFilter
    }
}

impl Filter for OwnerFilter {
    closed spec fn allows(&self, hit: RawHitView, v: Verdict) -> bool {
        v == Verdict::Keep
    }

    closed spec fn pending(&self) -> Seq<RawHitView> {
        Seq::empty()
    }

    fn evaluate(&mut self, _hit: &RawHit) -> (v: Verdict)
        ensures
            v == Verdict::Keep,
    {
        Verdict::Keep
    }

    fn drain(&mut self) -> (r: Vec<RawHit>) {
        let r: Vec<RawHit> = Vec::new();
        assert(hits_view(r@) =~= Seq::<RawHitView>::empty());
        r
    }
}

} // verus!
