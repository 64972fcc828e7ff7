//! Hidden by name: drops hits whose name, or any component between the
//! search root and the name, starts with `.`. Components above the root do
//! not count: a root the user named on purpose is walked.

use vstd::prelude::*;
use crate::scan::backend::{RawHit, RawHitView, hits_view};
use crate::scan::post_filter::{Filter, Verdict};
use crate::winpath;

verus! {

pub struct HiddenByNameFilter {
    enabled: bool,
}

/// The part of the hit's path below its root (the whole path when it is
/// not below its root).
pub open spec fn below_root(path: Seq<char>, root: Seq<char>) -> Seq<char> {
    match winpath::strip_prefix(path, root) {
        Some(rel) => rel,
        None => path,
    }
}

/// Whether some named component of `rel` starts with `.`.
pub open spec fn has_dot_component(rel: Seq<char>) -> bool {
    exists|k: int| 0 <= k < winpath::comps(rel).len()
        && winpath::is_named(#[trigger] winpath::comps(rel)[k]) && winpath::comps(rel)[k][0] == '.'
}

pub open spec fn hidden_name_verdict(enabled: bool, hit: RawHitView) -> Verdict {
    if enabled && has_dot_component(below_root(hit.path, hit.search_root)) { Verdict::Drop } else { Verdict::Keep }
}

impl HiddenByNameFilter {
    pub fn new(enabled: bool) -> (f: Self)
        ensures
            f.is_enabled() == enabled,
            forall|h: RawHitView, v: Verdict| #[trigger] f.allows(h, v) == (v == hidden_name_verdict(enabled, h)),
            f.pending() == Seq::<RawHitView>::empty(),
    {
        HiddenByNameFilter { enabled }
    }

    pub closed spec fn is_enabled(&self) -> bool {
        self.enabled
    }
}

fn dot_component(rel: &str) -> (r: bool)
    ensures
        r == has_dot_component(rel@),
{
    let pp = winpath::parts_of(rel);
    proof {
        winpath::lemma_comp_spans_ok(rel@);
    }
    let ghost cs = winpath::comps(rel@);
    let mut k: usize = 0;
    while k < pp.spans.len()
        invariant
            pp.wf(),
            pp.chars@ == rel@,
            cs == winpath::comps(rel@),
            cs.len() == pp.spans.len(),
            winpath::spans_ok(rel@, winpath::comp_spans(rel@), 0),
            k <= pp.spans.len(),
            forall|j: int| 0 <= j < k ==> !(winpath::is_named(#[trigger] cs[j]) && cs[j][0] == '.'),
        decreases pp.spans.len() - k,
    {
        let (a, b) = pp.spans[k];
        assert(winpath::spans_view(pp.spans@)[k as int] == (a as int, b as int));
        assert(cs[k as int] == rel@.subrange(a as int, b as int));
        let dotdot = b - a == 2 && pp.chars[a] == '.' && pp.chars[a + 1] == '.';
        assert(dotdot == !winpath::is_named(cs[k as int])) by {
            assert(cs[k as int].len() == b - a);
            if cs[k as int] == seq!['.', '.'] {
                assert(cs[k as int][0] == rel@[a as int]);
                assert(cs[k as int][1] == rel@[a + 1]);
            }
            if dotdot {
                assert(cs[k as int] =~= seq!['.', '.']);
            }
        }
        assert(cs[k as int][0] == rel@[a as int]);
        if !dotdot && pp.chars[a] == '.' {
            return true;
        }
        k += 1;
    }
    false
}

impl Filter for HiddenByNameFilter {
    closed spec fn allows(&self, hit: RawHitView, v: Verdict) -> bool {
        v == hidden_name_verdict(self.enabled, hit)
    }

    closed spec fn pending(&self) -> Seq<RawHitView> {
        Seq::empty()
    }

    fn evaluate(&mut self, hit: &RawHit) -> (v: Verdict)
        ensures
            v == hidden_name_verdict(old(self).is_enabled(), hit@),
            *final(self) == *old(self),
    {
        if !self.enabled {
            return Verdict::Keep;
        }
        let hidden = match winpath::strip_path_prefix(hit.path.as_str(), hit.search_root.as_str()) {
            Some(rel) => dot_component(rel.as_str()),
            None => dot_component(hit.path.as_str()),
        };
        if hidden { Verdict::Drop } else { Verdict::Keep }
    }

    fn drain(&mut self) -> (r: Vec<RawHit>) {
        let r: Vec<RawHit> = Vec::new();
        assert(hits_view(r@) =~= Seq::<RawHitView>::empty());
        r
    }
}

} // verus!
