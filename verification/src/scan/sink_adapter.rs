//! [`RootRebaseSink`]: moves backend hits from a resolved search root back
//! onto the root the user typed. It sits before the post-filter sink, so
//! ignore matching, metadata fallbacks and output all see the spelling the
//! user asked for rather than the physical target's.

use vstd::prelude::*;
use crate::scan::backend::{BackendError, BackendSink, RawHit, RawHitView};
use crate::text;
use crate::winpath;

verus! {

pub struct RootRebaseSink<'a, S: BackendSink + ?Sized> {
    downstream: &'a mut S,
    query_root: &'a str,
    logical_root: String,
    offered: Ghost<Seq<RawHitView>>,
}

/// `hit` moved under `logical_root`, given its path relative to the
/// resolved root.
pub open spec fn rebased(hit: RawHitView, logical_root: Seq<char>, rel: Seq<char>) -> RawHitView {
    RawHitView { path: winpath::join(logical_root, rel), search_root: logical_root, ..hit }
}

/// The message for a hit that lies outside the resolved root.
pub open spec fn outside_root_message(path: Seq<char>, root: Seq<char>) -> Seq<char> {
    "backend returned "@ + path + " outside resolved search root "@ + root
}

impl<'a, S: BackendSink + ?Sized> RootRebaseSink<'a, S> {
    /// The hits handed on to the downstream sink so far.
    pub closed spec fn downstream_offered(&self) -> Seq<RawHitView> {
        self.downstream.offered()
    }

    pub closed spec fn query_root_view(&self) -> Seq<char> {
        self.query_root@
    }

    pub closed spec fn logical_root_view(&self) -> Seq<char> {
        self.logical_root@
    }

    pub fn new(downstream: &'a mut S, query_root: &'a str, logical_root: String) -> (r: Self)
        ensures
            r.downstream_offered() == old(downstream).offered(),
            r.query_root_view() == query_root@,
            r.logical_root_view() == logical_root@,
            r.offered() == Seq::<RawHitView>::empty(),
    {
        RootRebaseSink { downstream, query_root, logical_root, offered: Ghost(Seq::empty()) }
    }
}

impl<'a, S: BackendSink + ?Sized> BackendSink for RootRebaseSink<'a, S> {
    closed spec fn offered(&self) -> Seq<RawHitView> {
        self.offered@
    }

    /// A hit outside the resolved root is refused with its message; any
    /// other is answered as the downstream answers its rebased form.
    closed spec fn answers(&self, hit: RawHitView, r: Result<(), BackendError>) -> bool {
        match winpath::strip_prefix(hit.path, self.query_root@) {
            None => r matches Err(BackendError::Other(m)) && m@ == outside_root_message(hit.path, self.query_root@),
            Some(rel) => self.downstream.answers(rebased(hit, self.logical_root@, rel), r),
        }
    }

    /// A hit below the resolved root goes downstream with its path joined
    /// onto the logical root and that root as its search root; any other hit
    /// is refused and nothing goes downstream.
    fn send(&mut self, hit: RawHit) -> (r: Result<(), BackendError>)
        ensures
            final(self).query_root_view() == old(self).query_root_view(),
            final(self).logical_root_view() == old(self).logical_root_view(),
            match winpath::strip_prefix(hit@.path, old(self).query_root_view()) {
                None => {
                    &&& final(self).downstream_offered() == old(self).downstream_offered()
                    &&& r matches Err(BackendError::Other(m))
                    &&& m@ == outside_root_message(hit@.path, old(self).query_root_view())
                },
                Some(rel) => final(self).downstream_offered()
                    == old(self).downstream_offered().push(rebased(hit@, old(self).logical_root_view(), rel)),
            },
    {
        let ghost hv = hit@;
        self.offered = Ghost(self.offered@.push(hv));
        match winpath::strip_path_prefix(hit.path.as_str(), self.query_root) {
            None => {
                let mut m = String::new();
                text::push_str(&mut m, "backend returned ");
                text::push_str(&mut m, hit.path.as_str());
                text::push_str(&mut m, " outside resolved search root ");
                text::push_str(&mut m, self.query_root);
                proof {
                    assert(m@ =~= outside_root_message(hv.path, self.query_root@));
                }
                Err(BackendError::Other(m))
            },
            Some(rel) => {
                let mut h = hit;
                h.path = winpath::path_join(self.logical_root.as_str(), rel.as_str());
                h.search_root = self.logical_root.clone();
                assert(h@ == rebased(hv, self.logical_root@, rel@));
                self.downstream.send(h)
            },
        }
    }
}

} // verus!
