//! `--changed-within` / `--changed-before`: the hit's FILETIME `mtime`
//! converted to a time and checked against every limit.

use vstd::prelude::*;
use crate::filter::{TimeFilter, filetime_time, time_applies};
use crate::scan::backend::{RawHit, RawHitView, hits_view};
use crate::scan::post_filter::{Filter, Verdict};

pub use crate::filter::filetime_to_systemtime;

verus! {

pub struct TimeConstraints {
    constraints: Vec<TimeFilter>,
}

pub open spec fn time_verdict(cs: Seq<TimeFilter>, hit: RawHitView) -> Verdict {
    if cs.len() == 0 {
        Verdict::Keep
    } else if forall|k: int| 0 <= k < cs.len() ==> time_applies(#[trigger] cs[k], filetime_time(hit.mtime)) {
        Verdict::Keep
    } else {
        Verdict::Drop
    }
}

impl TimeConstraints {
    pub fn new(constraints: Vec<TimeFilter>) -> (f: Self)
        ensures
            f.constraints() == constraints@,
            forall|h: RawHitView, v: Verdict| #[trigger] f.allows(h, v) == (v == time_verdict(constraints@, h)),
            f.pending() == Seq::<RawHitView>::empty(),
    {
        TimeConstraints { constraints }
    }

    pub closed spec fn constraints(&self) -> Seq<TimeFilter> {
        self.constraints@
    }
}

impl Filter for TimeConstraints {
    closed spec fn allows(&self, hit: RawHitView, v: Verdict) -> bool {
        v == time_verdict(self.constraints@, hit)
    }

    closed spec fn pending(&self) -> Seq<RawHitView> {
        Seq::empty()
    }

    fn evaluate(&mut self, hit: &RawHit) -> (v: Verdict)
        ensures
            v == time_verdict(old(self).constraints(), hit@),
            *final(self) == *old(self),
    {
        if self.constraints.len() == 0 {
            return Verdict::Keep;
        }
        let modified = crate::filter::filetime_to_systemtime(hit.mtime);
        let mut k: usize = 0;
        while k < self.constraints.len()
            invariant
                k <= self.constraints.len(),
                modified == filetime_time(hit.mtime),
                forall|j: int| 0 <= j < k ==> time_applies(#[trigger] self.constraints@[j], modified),
            decreases self.constraints.len() - k,
        {
            if !self.constraints[k].applies_to(&modified) {
                return Verdict::Drop;
            }
            k += 1;
        }
        Verdict::Keep
    }

    fn drain(&mut self) -> (r: Vec<RawHit>) {
        let r: Vec<RawHit> = Vec::new();
        assert(hits_view(r@) =~= Seq::<RawHitView>::empty());
        r
    }
}

/// `--changed-within` / `--changed-before` limits all have to hold. Under at
/// least one limit, a hit is kept exactly when its modification time meets
/// every limit; a limit it misses drops it, whatever the others say; and
/// adding a limit can only turn a kept hit into a dropped one.
pub proof fn lemma_time_needs_every_limit(cs: Seq<TimeFilter>, c: TimeFilter, hit: RawHitView)
    ensures
        cs.len() == 0 ==> time_verdict(cs, hit) == Verdict::Keep,
        cs.len() > 0 ==> (time_verdict(cs, hit) == Verdict::Keep
            <==> forall|k: int| 0 <= k < cs.len() ==> #[trigger] time_applies(cs[k], filetime_time(hit.mtime))),
        cs.len() > 0 ==> (time_verdict(cs, hit) == Verdict::Keep || time_verdict(cs, hit) == Verdict::Drop),
        forall|k: int| 0 <= k < cs.len() && !time_applies(#[trigger] cs[k], filetime_time(hit.mtime))
            ==> time_verdict(cs, hit) == Verdict::Drop,
        !time_applies(c, filetime_time(hit.mtime)) ==> time_verdict(cs.push(c), hit) == Verdict::Drop,
        time_verdict(cs.push(c), hit) == Verdict::Keep ==> time_applies(c, filetime_time(hit.mtime))
            && (cs.len() > 0 ==> time_verdict(cs, hit) == Verdict::Keep),
{
    let cs2 = cs.push(c);
    assert(cs2[cs.len() as int] == c);
    assert(forall|k: int| 0 <= k < cs.len() ==> cs2[k] == cs[k]);
}

} // verus!
