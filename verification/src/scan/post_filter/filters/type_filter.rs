//! `--type`: decided from the hit's directory bit and attributes alone. A
//! reparse point counts as a link; `executables_only` and `empty_only` would
//! need file-system calls and pass every hit.

use vstd::prelude::*;
use crate::filetypes::FileTypes;
use crate::scan::backend::{RawHit, RawHitView, hits_view};
use crate::scan::post_filter::{Filter, Verdict};

verus! {

/// Win32 `FILE_ATTRIBUTE_REPARSE_POINT`.
pub const FILE_ATTRIBUTE_REPARSE_POINT: u32 = 0x0000_0400;

pub struct TypeFilter {
    types: FileTypes,
}

pub open spec fn type_verdict(t: FileTypes, hit: RawHitView) -> Verdict {
    let is_symlink = hit.attributes & FILE_ATTRIBUTE_REPARSE_POINT != 0;
    let is_file = !hit.is_dir && !is_symlink;
    let is_dir = hit.is_dir && !is_symlink;
    if (!t.files && is_file) || (!t.directories && is_dir) || (!t.symlinks && is_symlink) {
        Verdict::Drop
    } else {
        Verdict::Keep
    }
}

impl TypeFilter {
    pub fn new(types: FileTypes) -> (f: Self)
        ensures
            f.types() == types,
            forall|h: RawHitView, v: Verdict| #[trigger] f.allows(h, v) == (v == type_verdict(types, h)),
            f.pending() == Seq::<RawHitView>::empty(),
    {
        TypeFilter { types }
    }

    pub closed spec fn types(&self) -> FileTypes {
        self.types
    }
}

impl Filter for TypeFilter {
    closed spec fn allows(&self, hit: RawHitView, v: Verdict) -> bool {
        v == type_verdict(self.types, hit)
    }

    closed spec fn pending(&self) -> Seq<RawHitView> {
        Seq::empty()
    }

    fn evaluate(&mut self, hit: &RawHit) -> (v: Verdict)
        ensures
            v == type_verdict(old(self).types(), hit@),
            *final(self) == *old(self),
    {
        let t = &self.types;
        let is_symlink = hit.attributes & FILE_ATTRIBUTE_REPARSE_POINT != 0;
        let is_file = !hit.is_dir && !is_symlink;
        let is_dir = hit.is_dir && !is_symlink;
        if !t.files && is_file {
            return Verdict::Drop;
        }
        if !t.directories && is_dir {
            return Verdict::Drop;
        }
        if !t.symlinks && is_symlink {
            return Verdict::Drop;
        }
        Verdict::Keep
    }

    fn drain(&mut self) -> (r: Vec<RawHit>) {
        let r: Vec<RawHit> = Vec::new();
        assert(hits_view(r@) =~= Seq::<RawHitView>::empty());
        r
    }
}

} // verus!
