//! `--max-results N`: keep the first N-1 hits, answer `Cancel` on the N-th
//! (which forwards it and stops the backend), drop anything after. A limit
//! of 0 means no limit.

use vstd::prelude::*;
use crate::scan::backend::{CancellationToken, RawHit, RawHitView, hits_view};
use crate::scan::post_filter::{Filter, Verdict};

verus! {

pub struct MaxResultsFilter {
    limit: usize,
    emitted: usize,
    cancel: CancellationToken,
}

/// Verdict for the next hit when `emitted` hits have been counted.
pub open spec fn max_results_verdict(limit: usize, emitted: usize) -> Verdict {
    if limit == 0 {
        Verdict::Keep
    } else if emitted >= limit {
        Verdict::Drop
    } else if emitted + 1 == limit {
        Verdict::Cancel
    } else {
        Verdict::Keep
    }
}

/// The count after one more hit (it stops growing at the limit).
pub open spec fn max_results_next(limit: usize, emitted: usize) -> usize {
    if limit == 0 || emitted >= limit { emitted } else { (emitted + 1) as usize }
}

impl MaxResultsFilter {
    pub fn new(limit: usize, cancel: CancellationToken) -> (f: Self)
        ensures
            f.limit() == limit,
            f.emitted() == 0,
            forall|h: RawHitView, v: Verdict| #[trigger] f.allows(h, v) == (v == max_results_verdict(limit, 0)),
            f.pending() == Seq::<RawHitView>::empty(),
    {
        MaxResultsFilter { limit, emitted: 0, cancel }
    }

    pub closed spec fn limit(&self) -> usize {
        self.limit
    }

    pub closed spec fn emitted(&self) -> usize {
        self.emitted
    }
}

impl Filter for MaxResultsFilter {
    closed spec fn allows(&self, hit: RawHitView, v: Verdict) -> bool {
        v == max_results_verdict(self.limit, self.emitted)
    }

    closed spec fn pending(&self) -> Seq<RawHitView> {
        Seq::empty()
    }

    /// Also raises the shared token on the `Cancel` answer, so that the
    /// backend sees it at its next poll.
    fn evaluate(&mut self, _hit: &RawHit) -> (v: Verdict)
        ensures
            v == max_results_verdict(old(self).limit(), old(self).emitted()),
            final(self).limit() == old(self).limit(),
            final(self).emitted() == max_results_next(old(self).limit(), old(self).emitted()),
    {
        if self.limit == 0 {
            return Verdict::Keep;
        }
        if self.emitted >= self.limit {
            return Verdict::Drop;
        }
        self.emitted += 1;
        if self.emitted == self.limit {
            self.cancel.cancel();
            return Verdict::Cancel;
        }
        Verdict::Keep
    }

    fn drain(&mut self) -> (r: Vec<RawHit>) {
        let r: Vec<RawHit> = Vec::new();
        assert(hits_view(r@) =~= Seq::<RawHitView>::empty());
        r
    }
}

/// Verdicts of `n` consecutive hits starting from count `emitted`.
pub open spec fn max_results_run(limit: usize, emitted: usize, n: nat) -> Seq<Verdict>
    decreases n,
{
    if n == 0 {
        Seq::empty()
    } else {
        seq![max_results_verdict(limit, emitted)] + max_results_run(limit, max_results_next(limit, emitted), (n - 1) as nat)
    }
}

/// `--max-results` law: from a fresh filter with limit `N > 0`, the `k`-th
/// hit (counting from 1) is kept when `k < N`, cancels when `k == N`, and is
/// dropped when `k > N`; so exactly `N` hits are forwarded. With limit 0
/// every hit is kept.
pub proof fn lemma_max_results_forwards_exactly_limit(limit: usize, n: nat)
    ensures
        max_results_run(limit, 0, n).len() == n,
        forall|k: int| 0 <= k < n ==> #[trigger] max_results_run(limit, 0, n)[k] == (
            if limit == 0 || k + 1 < limit { Verdict::Keep } else if k + 1 == limit { Verdict::Cancel } else { Verdict::Drop }),
{
    lemma_run_from(limit, 0, n);
}

proof fn lemma_run_from(limit: usize, e: usize, n: nat)
    requires
        e <= limit,
    ensures
        max_results_run(limit, e, n).len() == n,
        forall|k: int| 0 <= k < n ==> #[trigger] max_results_run(limit, e, n)[k] == (
            if limit == 0 || e + k + 1 < limit { Verdict::Keep } else if e + k + 1 == limit { Verdict::Cancel } else { Verdict::Drop }),
    decreases n,
{
    if n > 0 {
        let e2 = max_results_next(limit, e);
        lemma_run_from(limit, e2, (n - 1) as nat);
        let r = max_results_run(limit, e, n);
        assert forall|k: int| 0 <= k < n implies #[trigger] r[k] == (
            if limit == 0 || e + k + 1 < limit { Verdict::Keep } else if e + k + 1 == limit { Verdict::Cancel } else { Verdict::Drop }) by {
            if k > 0 {
                assert(r[k] == max_results_run(limit, e2, (n - 1) as nat)[k - 1]);
                if limit > 0 && e >= limit {
                    assert(e2 == e);
                }
            }
        }
    }
}

/// What a result limiter answers in any state: the verdict its limit and
/// count give; it holds nothing back.
pub proof fn lemma_max_results_answers(f: MaxResultsFilter)
    ensures
        forall|h: RawHitView, v: Verdict| #[trigger] f.allows(h, v) == (v == max_results_verdict(f.limit(), f.emitted())),
        f.pending() == Seq::<RawHitView>::empty(),
{
}

} // verus!
