//! [`ChainFilter`]: one link of the post-filter chain, either one of the
//! library's own filters or a filter supplied from outside.

use vstd::prelude::*;
use crate::scan::backend::{RawHit, RawHitView, hits_view};
use super::{Filter, Verdict};
use crate::scan::pipeline_builder::Stage;
use super::filters::depth::DepthFilter;
use super::filters::exclude::ExcludeFilter;
use super::filters::extension::ExtensionFilter;
use super::filters::hidden_by_attr::HiddenByAttrFilter;
use super::filters::hidden_by_name::HiddenByNameFilter;
use super::filters::ignore_contain::IgnoreContainFilter;
use super::filters::max_results::{max_results_next, MaxResultsFilter};
use super::filters::prune::{insert_hit, PruneFilter};
use super::filters::same_filesystem::SameFilesystemFilter;
use super::filters::size::SizeConstraints;
use super::filters::symlink_filter::{symlink_next, SymlinkFilter};
use super::filters::time_filter::TimeConstraints;
use super::filters::type_filter::TypeFilter;

verus! {

/// One link of the chain. The library's own filters are held by value, so
/// that what each one answers stays known; any other filter is held as a
/// trait object.
pub enum ChainFilter {
    IgnoreContain(IgnoreContainFilter),
    SameFilesystem(SameFilesystemFilter),
    Exclude(ExcludeFilter),
    Type(TypeFilter),
    Extension(ExtensionFilter),
    Size(SizeConstraints),
    Time(TimeConstraints),
    Depth(DepthFilter),
    HiddenByName(HiddenByNameFilter),
    HiddenByAttr(HiddenByAttrFilter),
    Prune(PruneFilter),
    Symlink(SymlinkFilter),
    MaxResults(MaxResultsFilter),
    Custom(Box<dyn Filter>),
}

impl ChainFilter {
    /// Whether `evaluate`, in this state, may answer `v` for `hit`: as the
    /// filter held says.
    #[verifier::opaque]
    pub open spec fn allows(&self, hit: RawHitView, v: Verdict) -> bool {
        match self {
            ChainFilter::IgnoreContain(f) => f.allows(hit, v),
            ChainFilter::SameFilesystem(f) => f.allows(hit, v),
            ChainFilter::Exclude(f) => f.allows(hit, v),
            ChainFilter::Type(f) => f.allows(hit, v),
            ChainFilter::Extension(f) => f.allows(hit, v),
            ChainFilter::Size(f) => f.allows(hit, v),
            ChainFilter::Time(f) => f.allows(hit, v),
            ChainFilter::Depth(f) => f.allows(hit, v),
            ChainFilter::HiddenByName(f) => f.allows(hit, v),
            ChainFilter::HiddenByAttr(f) => f.allows(hit, v),
            ChainFilter::Prune(f) => f.allows(hit, v),
            ChainFilter::Symlink(f) => f.allows(hit, v),
            ChainFilter::MaxResults(f) => f.allows(hit, v),
            ChainFilter::Custom(f) => f.allows(hit, v),
        }
    }

    /// The hits the filter held holds back for the drain.
    #[verifier::opaque]
    pub open spec fn pending(&self) -> Seq<RawHitView> {
        match self {
            ChainFilter::IgnoreContain(f) => f.pending(),
            ChainFilter::SameFilesystem(f) => f.pending(),
            ChainFilter::Exclude(f) => f.pending(),
            ChainFilter::Type(f) => f.pending(),
            ChainFilter::Extension(f) => f.pending(),
            ChainFilter::Size(f) => f.pending(),
            ChainFilter::Time(f) => f.pending(),
            ChainFilter::Depth(f) => f.pending(),
            ChainFilter::HiddenByName(f) => f.pending(),
            ChainFilter::HiddenByAttr(f) => f.pending(),
            ChainFilter::Prune(f) => f.pending(),
            ChainFilter::Symlink(f) => f.pending(),
            ChainFilter::MaxResults(f) => f.pending(),
            ChainFilter::Custom(f) => f.pending(),
        }
    }

    /// What answering `v` for `hit` leaves of the filter: the stateless
    /// filters stay as they were; `--max-results` counts, `--prune` takes
    /// the hit in and the symlink filter may note a directory, as each says;
    /// `--ignore-contain` keeps its markers and prunes at most the hit's
    /// path; of the rest only that they stay the same kind of filter.
    #[verifier::opaque]
    pub open spec fn moves_to(&self, post: ChainFilter, hit: RawHitView, v: Verdict) -> bool {
        match (*self, post) {
            (ChainFilter::IgnoreContain(a), ChainFilter::IgnoreContain(b)) => b.markers() == a.markers()
                && (b.pruned() == a.pruned() || b.pruned() == a.pruned().push(hit.path)),
            (ChainFilter::SameFilesystem(_), ChainFilter::SameFilesystem(_)) => true,
            (ChainFilter::Exclude(a), ChainFilter::Exclude(b)) => b == a,
            (ChainFilter::Type(a), ChainFilter::Type(b)) => b == a,
            (ChainFilter::Extension(a), ChainFilter::Extension(b)) => b == a,
            (ChainFilter::Size(a), ChainFilter::Size(b)) => b == a,
            (ChainFilter::Time(a), ChainFilter::Time(b)) => b == a,
            (ChainFilter::Depth(a), ChainFilter::Depth(b)) => b == a,
            (ChainFilter::HiddenByName(a), ChainFilter::HiddenByName(b)) => b == a,
            (ChainFilter::HiddenByAttr(a), ChainFilter::HiddenByAttr(b)) => b == a,
            (ChainFilter::Prune(a), ChainFilter::Prune(b)) => b.buffered() == insert_hit(a.buffered(), hit),
            (ChainFilter::Symlink(a), ChainFilter::Symlink(b)) => b.is_enabled() == a.is_enabled()
                && b.dirs() == symlink_next(a.is_enabled(), a.dirs(), hit),
            (ChainFilter::MaxResults(a), ChainFilter::MaxResults(b)) => b.limit() == a.limit()
                && b.emitted() == max_results_next(a.limit(), a.emitted()),
            (ChainFilter::Custom(_), ChainFilter::Custom(_)) => true,
            _ => false,
        }
    }

    pub fn evaluate(&mut self, hit: &RawHit) -> (v: Verdict)
        ensures
            old(self).allows(hit@, v),
            old(self).moves_to(*final(self), hit@, v),
    {
        reveal(ChainFilter::allows);
        reveal(ChainFilter::moves_to);
        match self {
            ChainFilter::IgnoreContain(f) => {
                let ghost a = *f;
                let v = f.evaluate(hit);
                proof {
                    let found = choose|found: bool| #[trigger] a.contain_step(*f, hit@, found, v);
                    assert(a.contain_step(*f, hit@, found, v));
                    assert(f.markers() == a.markers());
                }
                v
            },
            ChainFilter::SameFilesystem(f) => f.evaluate(hit),
            ChainFilter::Exclude(f) => f.evaluate(hit),
            ChainFilter::Type(f) => f.evaluate(hit),
            ChainFilter::Extension(f) => f.evaluate(hit),
            ChainFilter::Size(f) => f.evaluate(hit),
            ChainFilter::Time(f) => f.evaluate(hit),
            ChainFilter::Depth(f) => f.evaluate(hit),
            ChainFilter::HiddenByName(f) => f.evaluate(hit),
            ChainFilter::HiddenByAttr(f) => f.evaluate(hit),
            ChainFilter::Prune(f) => f.evaluate(hit),
            ChainFilter::Symlink(f) => f.evaluate(hit),
            ChainFilter::MaxResults(f) => f.evaluate(hit),
            ChainFilter::Custom(f) => f.evaluate(hit),
        }
    }

    pub fn drain(&mut self) -> (r: Vec<RawHit>)
        ensures
            hits_view(r@) == old(self).pending(),
            final(self).pending() == Seq::<RawHitView>::empty(),
    {
        reveal(ChainFilter::pending);
        match self {
            ChainFilter::IgnoreContain(f) => f.drain(),
            ChainFilter::SameFilesystem(f) => f.drain(),
            ChainFilter::Exclude(f) => f.drain(),
            ChainFilter::Type(f) => f.drain(),
            ChainFilter::Extension(f) => f.drain(),
            ChainFilter::Size(f) => f.drain(),
            ChainFilter::Time(f) => f.drain(),
            ChainFilter::Depth(f) => f.drain(),
            ChainFilter::HiddenByName(f) => f.drain(),
            ChainFilter::HiddenByAttr(f) => f.drain(),
            ChainFilter::Prune(f) => f.drain(),
            ChainFilter::Symlink(f) => f.drain(),
            ChainFilter::MaxResults(f) => f.drain(),
            ChainFilter::Custom(f) => f.drain(),
        }
    }
}

/// The stage a filter of the library stands for; `None` for one supplied
/// from outside.
pub open spec fn stage_of(f: ChainFilter) -> Option<Stage> {
    match f {
        ChainFilter::IgnoreContain(_) => Some(Stage::IgnoreContain),
        ChainFilter::SameFilesystem(_) => Some(Stage::SameFilesystem),
        ChainFilter::Exclude(_) => Some(Stage::Exclude),
        ChainFilter::Type(_) => Some(Stage::Type),
        ChainFilter::Extension(_) => Some(Stage::Extension),
        ChainFilter::Size(_) => Some(Stage::Size),
        ChainFilter::Time(_) => Some(Stage::Time),
        ChainFilter::Depth(_) => Some(Stage::Depth),
        ChainFilter::HiddenByName(_) => Some(Stage::HiddenByName),
        ChainFilter::HiddenByAttr(_) => Some(Stage::HiddenByAttr),
        ChainFilter::Prune(_) => Some(Stage::Prune),
        ChainFilter::Symlink(_) => Some(Stage::Symlink),
        ChainFilter::MaxResults(_) => Some(Stage::MaxResults),
        ChainFilter::Custom(_) => None,
    }
}

} // verus!
