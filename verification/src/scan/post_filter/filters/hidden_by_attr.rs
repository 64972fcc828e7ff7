//! Hidden by attribute: drops hits whose Win32 attributes carry
//! `FILE_ATTRIBUTE_HIDDEN`.

use vstd::prelude::*;
use crate::scan::backend::{RawHit, RawHitView, hits_view};
use crate::scan::post_filter::{Filter, Verdict};

verus! {

/// Win32 `FILE_ATTRIBUTE_HIDDEN`.
pub const FILE_ATTRIBUTE_HIDDEN: u32 = 0x0000_0002;

pub struct HiddenByAttrFilter {
    enabled: bool,
}

pub open spec fn hidden_attr_verdict(enabled: bool, attributes: u32) -> Verdict {
    if enabled && attributes & FILE_ATTRIBUTE_HIDDEN != 0 { Verdict::Drop } else { Verdict::Keep }
}

impl HiddenByAttrFilter {
    pub fn new(enabled: bool) -> (f: Self)
        ensures
            f.is_enabled() == enabled,
            forall|h: RawHitView, v: Verdict| #[trigger] f.allows(h, v) == (v == hidden_attr_verdict(enabled, h.attributes)),
            f.pending() == Seq::<RawHitView>::empty(),
    {
        HiddenByAttrFilter { enabled }
    }

    pub closed spec fn is_enabled(&self) -> bool {
        self.enabled
    }
}

impl Filter for HiddenByAttrFilter {
    closed spec fn allows(&self, hit: RawHitView, v: Verdict) -> bool {
        v == hidden_attr_verdict(self.enabled, hit.attributes)
    }

    closed spec fn pending(&self) -> Seq<RawHitView> {
        Seq::empty()
    }

    fn evaluate(&mut self, hit: &RawHit) -> (v: Verdict)
        ensures
            v == hidden_attr_verdict(old(self).is_enabled(), hit.attributes),
            *final(self) == *old(self),
    {
        if !self.enabled {
            return Verdict::Keep;
        }
        if hit.attributes & FILE_ATTRIBUTE_HIDDEN != 0 { Verdict::Drop } else { Verdict::Keep }
    }

    fn drain(&mut self) -> (r: Vec<RawHit>) {
        let r: Vec<RawHit> = Vec::new();
        assert(hits_view(r@) =~= Seq::<RawHitView>::empty());
        r
    }
}

} // verus!
