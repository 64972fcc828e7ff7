//! `--size`: regular files only. Directories and reparse points (links,
//! junctions, mount points) are dropped; a file is kept when its size
//! satisfies every constraint.

use vstd::prelude::*;
use crate::filter::{SizeFilter, size_within};
use crate::scan::backend::{RawHit, RawHitView, hits_view};
use crate::scan::post_filter::{Filter, Verdict};

verus! {

/// Win32 `FILE_ATTRIBUTE_REPARSE_POINT`.
pub const FILE_ATTRIBUTE_REPARSE_POINT: u32 = 0x0000_0400;

pub struct SizeConstraints {
    constraints: Vec<SizeFilter>,
}

pub open spec fn size_verdict(cs: Seq<SizeFilter>, hit: RawHitView) -> Verdict {
    if cs.len() == 0 {
        Verdict::Keep
    } else if hit.is_dir || hit.attributes & FILE_ATTRIBUTE_REPARSE_POINT != 0 {
        Verdict::Drop
    } else if forall|k: int| 0 <= k < cs.len() ==> size_within(#[trigger] cs[k], hit.size) {
        Verdict::Keep
    } else {
        Verdict::Drop
    }
}

impl SizeConstraints {
    pub fn new(constraints: Vec<SizeFilter>) -> (f: Self)
        ensures
            f.constraints() == constraints@,
            forall|h: RawHitView, v: Verdict| #[trigger] f.allows(h, v) == (v == size_verdict(constraints@, h)),
            f.pending() == Seq::<RawHitView>::empty(),
    {
        SizeConstraints { constraints }
    }

    pub closed spec fn constraints(&self) -> Seq<SizeFilter> {
        self.constraints@
    }
}

impl Filter for SizeConstraints {
    closed spec fn allows(&self, hit: RawHitView, v: Verdict) -> bool {
        v == size_verdict(self.constraints@, hit)
    }

    closed spec fn pending(&self) -> Seq<RawHitView> {
        Seq::empty()
    }

    fn evaluate(&mut self, hit: &RawHit) -> (v: Verdict)
        ensures
            v == size_verdict(old(self).constraints(), hit@),
            *final(self) == *old(self),
    {
        if self.constraints.len() == 0 {
            return Verdict::Keep;
        }
        if hit.is_dir || (hit.attributes & FILE_ATTRIBUTE_REPARSE_POINT != 0) {
            return Verdict::Drop;
        }
        let mut k: usize = 0;
        while k < self.constraints.len()
            invariant
                k <= self.constraints.len(),
                forall|j: int| 0 <= j < k ==> size_within(#[trigger] self.constraints@[j], hit.size),
            decreases self.constraints.len() - k,
        {
            if !self.constraints[k].is_within(hit.size) {
                return Verdict::Drop;
            }
            k += 1;
        }
        Verdict::Keep
    }

    fn drain(&mut self) -> (r: Vec<RawHit>) {
        let r: Vec<RawHit> = Vec::new();
        assert(hits_view(r@) =~= Seq::<RawHitView>::empty());
        r
    }
}

/// `--size` limits all have to hold. For a regular file (no directory, no
/// reparse point) under at least one limit, the hit is kept exactly when its
/// size meets every limit; a limit it misses drops it, whatever the others
/// say; and adding a limit can only turn a kept hit into a dropped one.
pub proof fn lemma_size_needs_every_limit(cs: Seq<SizeFilter>, c: SizeFilter, hit: RawHitView)
    requires
        !hit.is_dir,
        hit.attributes & FILE_ATTRIBUTE_REPARSE_POINT == 0,
    ensures
        cs.len() == 0 ==> size_verdict(cs, hit) == Verdict::Keep,
        cs.len() > 0 ==> (size_verdict(cs, hit) == Verdict::Keep
            <==> forall|k: int| 0 <= k < cs.len() ==> #[trigger] size_within(cs[k], hit.size)),
        cs.len() > 0 ==> (size_verdict(cs, hit) == Verdict::Keep || size_verdict(cs, hit) == Verdict::Drop),
        forall|k: int| 0 <= k < cs.len() && !size_within(#[trigger] cs[k], hit.size) ==> size_verdict(cs, hit) == Verdict::Drop,
        !size_within(c, hit.size) ==> size_verdict(cs.push(c), hit) == Verdict::Drop,
        size_verdict(cs.push(c), hit) == Verdict::Keep ==> size_within(c, hit.size)
            && (cs.len() > 0 ==> size_verdict(cs, hit) == Verdict::Keep),
{
    let cs2 = cs.push(c);
    assert(cs2[cs.len() as int] == c);
    assert(forall|k: int| 0 <= k < cs.len() ==> cs2[k] == cs[k]);
}

/// Under any `--size` limit only regular files can pass: a directory or a
/// reparse point is dropped; with no limit every hit is kept.
pub proof fn lemma_size_limits_only_regular_files(cs: Seq<SizeFilter>, hit: RawHitView)
    ensures
        cs.len() == 0 ==> size_verdict(cs, hit) == Verdict::Keep,
        cs.len() > 0 && (hit.is_dir || hit.attributes & FILE_ATTRIBUTE_REPARSE_POINT != 0)
            ==> size_verdict(cs, hit) == Verdict::Drop,
{
}

} // verus!
