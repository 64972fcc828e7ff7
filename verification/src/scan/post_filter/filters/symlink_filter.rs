//! Without `--follow`, hits below a reparse-point directory are dropped: the
//! reparse directory itself is reported once, and remembered so that every
//! hit strictly below it is suppressed.

use vstd::prelude::*;
use crate::scan::backend::{RawHit, RawHitView, hits_view};
use crate::scan::post_filter::{Filter, Verdict};
use crate::winpath;

verus! {

/// Win32 `FILE_ATTRIBUTE_REPARSE_POINT`.
pub const FILE_ATTRIBUTE_REPARSE_POINT: u32 = 0x0000_0400;

pub struct SymlinkFilter {
    enabled: bool,
    reparse_dirs: Vec<String>,
}

/// `path` lies strictly below `dir`.
pub open spec fn strictly_below(path: Seq<char>, dir: Seq<char>) -> bool {
    winpath::starts_with(path, dir) && winpath::comps(path) != winpath::comps(dir)
}

/// `path` lies strictly below one of `dirs`.
pub open spec fn below_any(dirs: Seq<Seq<char>>, path: Seq<char>) -> bool {
    exists|k: int| 0 <= k < dirs.len() && strictly_below(path, #[trigger] dirs[k])
}

pub open spec fn symlink_verdict(enabled: bool, dirs: Seq<Seq<char>>, hit: RawHitView) -> Verdict {
    if enabled && below_any(dirs, hit.path) { Verdict::Drop } else { Verdict::Keep }
}

/// Whether the hit is a reparse-point directory to remember.
pub open spec fn is_reparse_dir(hit: RawHitView) -> bool {
    hit.is_dir && hit.attributes & FILE_ATTRIBUTE_REPARSE_POINT != 0
}

pub open spec fn symlink_next(enabled: bool, dirs: Seq<Seq<char>>, hit: RawHitView) -> Seq<Seq<char>> {
    if enabled && !below_any(dirs, hit.path) && is_reparse_dir(hit) { dirs.push(hit.path) } else { dirs }
}

impl SymlinkFilter {
    /// `follow_links` turns the filter off.
    pub fn new(follow_links: bool) -> (f: Self)
        ensures
            f.is_enabled() == !follow_links,
            f.dirs() == Seq::<Seq<char>>::empty(),
            forall|h: RawHitView, v: Verdict| #[trigger] f.allows(h, v) == (v == symlink_verdict(!follow_links, Seq::empty(), h)),
            f.pending() == Seq::<RawHitView>::empty(),
    {
        let f = SymlinkFilter { enabled: !follow_links, reparse_dirs: Vec::new() };
        assert(f.reparse_dirs@.map_values(|d: String| d@) =~= Seq::<Seq<char>>::empty());
        f
    }

    pub closed spec fn is_enabled(&self) -> bool {
        self.enabled
    }

    /// The reparse directories seen so far.
    pub closed spec fn dirs(&self) -> Seq<Seq<char>> {
        self.reparse_dirs@.map_values(|d: String| d@)
    }
}

impl Filter for SymlinkFilter {
    closed spec fn allows(&self, hit: RawHitView, v: Verdict) -> bool {
        v == symlink_verdict(self.enabled, self.dirs(), hit)
    }

    closed spec fn pending(&self) -> Seq<RawHitView> {
        Seq::empty()
    }

    fn evaluate(&mut self, hit: &RawHit) -> (v: Verdict)
        ensures
            v == symlink_verdict(old(self).is_enabled(), old(self).dirs(), hit@),
            final(self).is_enabled() == old(self).is_enabled(),
            final(self).dirs() == symlink_next(old(self).is_enabled(), old(self).dirs(), hit@),
    {
        if !self.enabled {
            return Verdict::Keep;
        }
        let ghost ds = self.dirs();
        let mut k: usize = 0;
        while k < self.reparse_dirs.len()
            invariant
                ds == self.dirs(),
                ds == old(self).dirs(),
                self.enabled,
                old(self).is_enabled(),
                k <= self.reparse_dirs.len(),
                forall|j: int| 0 <= j < k ==> !strictly_below(hit.path@, #[trigger] ds[j]),
            decreases self.reparse_dirs.len() - k,
        {
            let d = self.reparse_dirs[k].as_str();
            assert(ds[k as int] == d@);
            if winpath::path_starts_with(hit.path.as_str(), d) && !winpath::path_same(hit.path.as_str(), d) {
                assert(strictly_below(hit.path@, ds[k as int]));
                assert(below_any(ds, hit.path@));
                return Verdict::Drop;
            }
            k += 1;
        }
        assert(!below_any(ds, hit.path@));
        if hit.is_dir && hit.attributes & FILE_ATTRIBUTE_REPARSE_POINT != 0 {
            self.reparse_dirs.push(hit.path.clone());
            assert(self.dirs() =~= ds.push(hit.path@));
        }
        Verdict::Keep
    }

    fn drain(&mut self) -> (r: Vec<RawHit>) {
        let r: Vec<RawHit> = Vec::new();
        assert(hits_view(r@) =~= Seq::<RawHitView>::empty());
        r
    }
}

/// Law: once a reparse directory has been let through, every later hit
/// strictly below it is dropped.
pub proof fn lemma_reparse_descendants_drop(dirs: Seq<Seq<char>>, first: RawHitView, later: RawHitView)
    requires
        symlink_verdict(true, dirs, first) == Verdict::Keep,
        is_reparse_dir(first),
        strictly_below(later.path, first.path),
    ensures
        symlink_verdict(true, symlink_next(true, dirs, first), later) == Verdict::Drop,
{
    let next = symlink_next(true, dirs, first);
    assert(next[dirs.len() as int] == first.path);
}

/// What the symlink filter answers in any state: the verdict its switch and
/// the directories noted so far give; it holds nothing back.
pub proof fn lemma_symlink_answers(f: SymlinkFilter)
    ensures
        forall|h: RawHitView, v: Verdict| #[trigger] f.allows(h, v) == (v == symlink_verdict(f.is_enabled(), f.dirs(), h)),
        f.pending() == Seq::<RawHitView>::empty(),
{
}

} // verus!
