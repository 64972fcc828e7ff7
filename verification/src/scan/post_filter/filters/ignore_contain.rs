//! `--ignore-contain`: a directory holding one of the marker files is
//! dropped, and so is every later hit at or below it.

use vstd::prelude::*;
use crate::scan::backend::{RawHit, RawHitView, hits_view};
use crate::scan::post_filter::{Filter, Verdict};
use crate::winpath;

verus! {

pub struct IgnoreContainFilter {
    markers: Vec<String>,
    pruned_dirs: Vec<String>,
}

/// `std::path::Path::exists`: whether something exists at `p` on disk. The
/// answer depends on the file system, so nothing is claimed of it.
#[verifier::external_body]
fn path_exists(p: &str) -> bool {
    std::path::Path::new(p).exists()
}

/// `path` is at or below one of the pruned directories.
pub open spec fn under_pruned(pruned: Seq<Seq<char>>, path: Seq<char>) -> bool {
    exists|k: int| 0 <= k < pruned.len() && winpath::starts_with(path, #[trigger] pruned[k])
}

impl IgnoreContainFilter {
    pub fn new(markers: Vec<String>) -> (f: Self)
        ensures
            f.markers() == markers@.map_values(|m: String| m@),
            f.pruned() == Seq::<Seq<char>>::empty(),
            forall|h: RawHitView, v: Verdict| #[trigger] f.allows(h, v) == (if markers@.len() == 0 { v == Verdict::Keep } else { v == Verdict::Keep || (v == Verdict::Drop && h.is_dir) }),
            f.pending() == Seq::<RawHitView>::empty(),
    {
        let f = IgnoreContainFilter { markers, pruned_dirs: Vec::new() };
        assert(f.pruned_dirs@.map_values(|d: String| d@) =~= Seq::<Seq<char>>::empty());
        f
    }

    pub closed spec fn markers(&self) -> Seq<Seq<char>> {
        self.markers@.map_values(|m: String| m@)
    }

    /// Directories found to hold a marker.
    pub closed spec fn pruned(&self) -> Seq<Seq<char>> {
        self.pruned_dirs@.map_values(|d: String| d@)
    }
}

impl IgnoreContainFilter {
    /// What one hit does to the filter, given whether a marker file was
    /// found in it (`found`): with no markers it is kept; at or below a
    /// pruned directory it is dropped; a directory holding a marker is
    /// dropped and pruned; anything else is kept.
    pub open spec fn contain_step(&self, post: Self, hit: RawHitView, found: bool, v: Verdict) -> bool {
        &&& post.markers() == self.markers()
        &&& if self.markers().len() == 0 {
            v == Verdict::Keep && post.pruned() == self.pruned()
        } else if under_pruned(self.pruned(), hit.path) {
            v == Verdict::Drop && post.pruned() == self.pruned()
        } else if hit.is_dir && found {
            v == Verdict::Drop && post.pruned() == self.pruned().push(hit.path)
        } else {
            v == Verdict::Keep && post.pruned() == self.pruned()
        }
    }

    /// Whether `path` lies at or below a pruned directory.
    pub fn is_pruned(&self, path: &str) -> (b: bool)
        ensures
            b == under_pruned(self.pruned(), path@),
    {
        let ghost ps = self.pruned();
        let mut k: usize = 0;
        while k < self.pruned_dirs.len()
            invariant
                ps == self.pruned(),
                k <= self.pruned_dirs.len(),
                forall|j: int| 0 <= j < k ==> !winpath::starts_with(path@, #[trigger] ps[j]),
            decreases self.pruned_dirs.len() - k,
        {
            assert(ps[k as int] == self.pruned_dirs@[k as int]@);
            if winpath::path_starts_with(path, self.pruned_dirs[k].as_str()) {
                assert(under_pruned(ps, path@));
                return true;
            }
            k += 1;
        }
        false
    }

    /// Whether one of the marker files exists in the directory `dir`, asked
    /// of the disk for `dir` joined with each marker in turn. What the disk
    /// answers is not stated; with no markers the answer is `false`.
    pub fn marker_in(&self, dir: &str) -> (b: bool)
        ensures
            self.markers().len() == 0 ==> !b,
    {
        let mut m: usize = 0;
        while m < self.markers.len()
            decreases self.markers.len() - m,
        {
            let candidate = winpath::path_join(dir, self.markers[m].as_str());
            if path_exists(candidate.as_str()) {
                return true;
            }
            m += 1;
        }
        false
    }

    /// Decide for `hit`, given whether a marker was found in it (`found`).
    pub fn evaluate_with(&mut self, hit: &RawHit, found: bool) -> (v: Verdict)
        ensures
            old(self).contain_step(*final(self), hit@, found, v),
    {
        if self.markers.len() == 0 {
            return Verdict::Keep;
        }
        if self.is_pruned(hit.path.as_str()) {
            return Verdict::Drop;
        }
        if hit.is_dir && found {
            let ghost ps = self.pruned();
            self.pruned_dirs.push(hit.path.clone());
            assert(self.pruned() =~= ps.push(hit.path@));
            return Verdict::Drop;
        }
        Verdict::Keep
    }
}

impl Filter for IgnoreContainFilter {
    /// With no markers every hit is kept; a hit at or below a pruned
    /// directory is dropped; otherwise a directory may be dropped (when a
    /// marker is found in it) and anything else is kept.
    closed spec fn allows(&self, hit: RawHitView, v: Verdict) -> bool {
        if self.markers@.len() == 0 {
            v == Verdict::Keep
        } else if under_pruned(self.pruned(), hit.path) {
            v == Verdict::Drop
        } else {
            v == Verdict::Keep || (v == Verdict::Drop && hit.is_dir)
        }
    }

    closed spec fn pending(&self) -> Seq<RawHitView> {
        Seq::empty()
    }

    /// Asks the disk for a marker only for a directory that is not already
    /// pruned, then decides as `evaluate_with` does.
    fn evaluate(&mut self, hit: &RawHit) -> (v: Verdict)
        ensures
            exists|found: bool| #[trigger] old(self).contain_step(*final(self), hit@, found, v),
    {
        let found = self.markers.len() > 0 && hit.is_dir && !self.is_pruned(hit.path.as_str())
            && self.marker_in(hit.path.as_str());
        let v = self.evaluate_with(hit, found);
        assert(old(self).contain_step(*self, hit@, found, v));
        v
    }

    fn drain(&mut self) -> (r: Vec<RawHit>) {
        let r: Vec<RawHit> = Vec::new();
        assert(hits_view(r@) =~= Seq::<RawHitView>::empty());
        r
    }
}

/// What the marker filter allows in any state: with no markers, `Keep`;
/// at or below a pruned directory, `Drop`; otherwise `Keep`, or `Drop` for
/// a directory. It holds nothing back.
pub proof fn lemma_ignore_contain_answers(f: IgnoreContainFilter)
    ensures
        forall|h: RawHitView, v: Verdict| #[trigger] f.allows(h, v) == (if f.markers().len() == 0 {
            v == Verdict::Keep
        } else if under_pruned(f.pruned(), h.path) {
            v == Verdict::Drop
        } else {
            v == Verdict::Keep || (v == Verdict::Drop && h.is_dir)
        }),
        f.pending() == Seq::<RawHitView>::empty(),
{
}

} // verus!
