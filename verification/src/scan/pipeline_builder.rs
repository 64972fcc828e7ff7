//! Assembling the post-filter pipeline from the command-line filters.
//!
//! A filter whose option is unused never enters the chain, so that a
//! search without filters pays nothing per hit. The order is fixed:
//!
//! ```text
//! ignore-contain, one-file-system, exclude, type, extension, size, time,
//! depth, hidden (by name), ignore files, hidden (by attribute), prune,
//! symlinks, max-results
//! ```
//!
//! `--max-results` sits last so that it counts only the survivors of every
//! other filter.

use vstd::prelude::*;
use crate::filetypes::FileTypes;
use crate::filter::{SizeFilter, TimeFilter};
use crate::scan::backend::CancellationToken;
use crate::scan::post_filter::filters::depth::{depth_verdict, DepthFilter};
use crate::scan::post_filter::filters::exclude::{exclude_builds, exclude_verdict, glob_accepted, globs_view, malformed_message, mismatch_message, override_match, ExcludeFilter};
use crate::scan::post_filter::filters::extension::{extension_verdict, ExtensionFilter, PatternSet};
use crate::scan::post_filter::filters::hidden_by_attr::{hidden_attr_verdict, HiddenByAttrFilter};
use crate::scan::post_filter::filters::hidden_by_name::{hidden_name_verdict, HiddenByNameFilter};
use crate::scan::post_filter::filters::ignore_contain::IgnoreContainFilter;
use crate::scan::post_filter::filters::max_results::{max_results_verdict, MaxResultsFilter};
use crate::scan::post_filter::filters::prune::PruneFilter;
use crate::scan::post_filter::filters::same_filesystem::{NoopVolumeIdProvider, SameFilesystemFilter};
use crate::scan::post_filter::filters::size::{size_verdict, SizeConstraints};
use crate::scan::post_filter::filters::symlink_filter::{symlink_verdict, SymlinkFilter};
use crate::scan::post_filter::filters::time_filter::{time_verdict, TimeConstraints};
use crate::scan::post_filter::filters::type_filter::{type_verdict, TypeFilter};
use crate::scan::post_filter::ignore_cache::IgnoreFlags;
use crate::scan::backend::RawHitView;
use crate::scan::post_filter::{ChainFilter, Filter, Pipeline, Verdict};
use crate::scan::post_filter::chain::stage_of;
use crate::scan::post_filter::pipeline::{outcome_of, step, step_at, PipelineOutcome};

verus! {

/// The command-line options that decide the filter chain.
pub struct FilterConfig {
    /// `--ignore-contain` marker file names.
    pub ignore_contain: Vec<String>,
    /// `--one-file-system`.
    pub one_file_system: bool,
    /// `-E` globs, already negated.
    pub exclude_patterns: Vec<String>,
    /// `--type`.
    pub file_types: Option<FileTypes>,
    /// `--extension`, compiled.
    pub extensions: Option<PatternSet>,
    /// `--size`.
    pub size_constraints: Vec<SizeFilter>,
    /// `--changed-within` / `--changed-before`.
    pub time_constraints: Vec<TimeFilter>,
    pub min_depth: Option<usize>,
    pub max_depth: Option<usize>,
    /// Hidden entries are left out (no `--hidden`).
    pub ignore_hidden: bool,
    pub read_fdignore: bool,
    pub read_vcsignore: bool,
    pub require_git_to_read_vcsignore: bool,
    pub read_parent_ignore: bool,
    pub read_global_ignore: bool,
    pub case_sensitive: bool,
    /// `--prune`.
    pub prune: bool,
    /// `--follow`.
    pub follow_links: bool,
    /// `--max-results`.
    pub max_results: Option<usize>,
}

/// One stage of the chain.
#[derive(Debug, Clone, Copy, PartialEq, Eq, Structural)]
pub enum Stage {
    IgnoreContain,
    SameFilesystem,
    Exclude,
    Type,
    Extension,
    Size,
    Time,
    Depth,
    HiddenByName,
    IgnoreFiles,
    HiddenByAttr,
    Prune,
    Symlink,
    MaxResults,
}

/// The ignore-file switches the options give.
pub open spec fn ignore_flags_spec(c: &FilterConfig) -> IgnoreFlags {
    IgnoreFlags {
        read_fdignore: c.read_fdignore,
        read_vcsignore: c.read_vcsignore,
        require_git: c.require_git_to_read_vcsignore,
        read_parent_ignore: c.read_parent_ignore,
        read_global_ignore: c.read_global_ignore,
        case_insensitive: !c.case_sensitive,
    }
}

/// The ignore-file switches of the options.
pub fn ignore_flags_from(c: &FilterConfig) -> (f: IgnoreFlags)
    ensures
        f == ignore_flags_spec(c),
{
    IgnoreFlags {
        read_fdignore: c.read_fdignore,
        read_vcsignore: c.read_vcsignore,
        require_git: c.require_git_to_read_vcsignore,
        read_parent_ignore: c.read_parent_ignore,
        read_global_ignore: c.read_global_ignore,
        case_insensitive: !c.case_sensitive,
    }
}

/// `s` if `on`, nothing otherwise.
pub open spec fn when(on: bool, s: Stage) -> Seq<Stage> {
    if on { seq![s] } else { Seq::empty() }
}

/// The stages, in chain order, for the options: each one present exactly
/// when its option is used; the ignore-file stage when any ignore file is
/// read.
pub open spec fn plan_spec(c: &FilterConfig) -> Seq<Stage> {
    stages_before_limit(c) + when(c.max_results is Some, Stage::MaxResults)
}

/// Every stage but `--max-results`, in chain order.
pub open spec fn stages_before_limit(c: &FilterConfig) -> Seq<Stage> {
    when(c.ignore_contain@.len() > 0, Stage::IgnoreContain)
        + when(c.one_file_system, Stage::SameFilesystem)
        + when(c.exclude_patterns@.len() > 0, Stage::Exclude)
        + when(c.file_types is Some, Stage::Type)
        + when(c.extensions is Some, Stage::Extension)
        + when(c.size_constraints@.len() > 0, Stage::Size)
        + when(c.time_constraints@.len() > 0, Stage::Time)
        + when(c.min_depth is Some || c.max_depth is Some, Stage::Depth)
        + when(c.ignore_hidden, Stage::HiddenByName)
        + when(c.read_fdignore || c.read_vcsignore, Stage::IgnoreFiles)
        + when(c.ignore_hidden, Stage::HiddenByAttr)
        + when(c.prune, Stage::Prune)
        + when(!c.follow_links, Stage::Symlink)
}

fn push_when(v: &mut Vec<Stage>, on: bool, s: Stage)
    ensures
        final(v)@ == old(v)@ + when(on, s),
{
    if on {
        v.push(s);
    } else {
        assert(old(v)@ + when(on, s) =~= old(v)@);
    }
}

/// The stages of the chain for `c`, in order.
pub fn stage_plan(c: &FilterConfig) -> (r: Vec<Stage>)
    ensures
        r@ == plan_spec(c),
{
    let mut v: Vec<Stage> = Vec::new();
    push_when(&mut v, c.ignore_contain.len() > 0, Stage::IgnoreContain);
    push_when(&mut v, c.one_file_system, Stage::SameFilesystem);
    push_when(&mut v, c.exclude_patterns.len() > 0, Stage::Exclude);
    push_when(&mut v, c.file_types.is_some(), Stage::Type);
    push_when(&mut v, c.extensions.is_some(), Stage::Extension);
    push_when(&mut v, c.size_constraints.len() > 0, Stage::Size);
    push_when(&mut v, c.time_constraints.len() > 0, Stage::Time);
    push_when(&mut v, c.min_depth.is_some() || c.max_depth.is_some(), Stage::Depth);
    push_when(&mut v, c.ignore_hidden, Stage::HiddenByName);
    push_when(&mut v, c.read_fdignore || c.read_vcsignore, Stage::IgnoreFiles);
    push_when(&mut v, c.ignore_hidden, Stage::HiddenByAttr);
    push_when(&mut v, c.prune, Stage::Prune);
    push_when(&mut v, !c.follow_links, Stage::Symlink);
    push_when(&mut v, c.max_results.is_some(), Stage::MaxResults);
    assert(v@ =~= plan_spec(c));
    v
}


fn copy_strings(v: &Vec<String>) -> (r: Vec<String>)
    ensures
        r@.map_values(|s: String| s@) == v@.map_values(|s: String| s@),
{
    let mut r: Vec<String> = Vec::new();
    let mut i: usize = 0;
    while i < v.len()
        invariant
            i <= v.len(),
            r@.len() == i,
            forall|j: int| 0 <= j < i ==> (#[trigger] r@[j])@ == v@[j]@,
        decreases v.len() - i,
    {
        let s = v[i].clone();
        r.push(s);
        i += 1;
    }
    assert(r@.map_values(|s: String| s@) =~= v@.map_values(|s: String| s@));
    r
}

fn copy_sizes(v: &Vec<SizeFilter>) -> (r: Vec<SizeFilter>)
    ensures
        r@ == v@,
{
    let mut r: Vec<SizeFilter> = Vec::new();
    let mut i: usize = 0;
    while i < v.len()
        invariant
            i <= v.len(),
            r@ == v@.take(i as int),
        decreases v.len() - i,
    {
        r.push(v[i]);
        assert(r@ =~= v@.take(i + 1));
        i += 1;
    }
    assert(v@.take(i as int) =~= v@);
    r
}

fn copy_times(v: &Vec<TimeFilter>) -> (r: Vec<TimeFilter>)
    ensures
        r@ == v@,
{
    let mut r: Vec<TimeFilter> = Vec::new();
    let mut i: usize = 0;
    while i < v.len()
        invariant
            i <= v.len(),
            r@ == v@.take(i as int),
        decreases v.len() - i,
    {
        r.push(v[i]);
        assert(r@ =~= v@.take(i + 1));
        i += 1;
    }
    assert(v@.take(i as int) =~= v@);
    r
}

/// `f` is a fresh filter for stage `s` of the options `c`, with exclude
/// globs anchored at `root`: the library's filter for that stage, holding
/// nothing back and answering for each hit as that stage does. The
/// ignore-file stage is the filter `ignore_stage` supplied from outside.
pub open spec fn stage_ready(c: &FilterConfig, root: Seq<char>, ignore_stage: Option<Box<dyn Filter>>, s: Stage, f: ChainFilter) -> bool {
    if s == Stage::IgnoreFiles {
        ignore_stage matches Some(g) && f == ChainFilter::Custom(g)
    } else {
        &&& stage_of(f) == Some(s)
        &&& f.pending() == Seq::<RawHitView>::empty()
        &&& forall|h: RawHitView, v: Verdict| #[trigger] f.allows(h, v) == stage_allows(c, root, s, h, v)
    }
}

/// The answers a fresh filter for stage `s` gives for `h`: `v` is allowed
/// exactly when this holds.
pub open spec fn stage_allows(c: &FilterConfig, root: Seq<char>, s: Stage, h: RawHitView, v: Verdict) -> bool {
    match s {
        Stage::IgnoreContain => v == Verdict::Keep || (v == Verdict::Drop && h.is_dir),
        Stage::SameFilesystem => v == Verdict::Keep || v == Verdict::Drop,
        Stage::Exclude => v == exclude_verdict(override_match(root, globs_view(c.exclude_patterns@), h.path, h.is_dir)),
        Stage::Type => v == type_verdict(c.file_types->0, h),
        Stage::Extension => v == extension_verdict(c.extensions->0.patterns(), h),
        Stage::Size => v == size_verdict(c.size_constraints@, h),
        Stage::Time => v == time_verdict(c.time_constraints@, h),
        Stage::Depth => v == depth_verdict(c.min_depth, c.max_depth, h.depth),
        Stage::HiddenByName => v == hidden_name_verdict(true, h),
        Stage::IgnoreFiles => true,
        Stage::HiddenByAttr => v == hidden_attr_verdict(true, h.attributes),
        Stage::Prune => v == Verdict::Drop,
        Stage::Symlink => v == symlink_verdict(true, Seq::empty(), h),
        Stage::MaxResults => v == max_results_verdict(c.max_results->0, 0),
    }
}

/// `chain` is, filter by filter, the fresh chain for the stages `plan`.
pub open spec fn chain_ready(c: &FilterConfig, root: Seq<char>, ignore_stage: Option<Box<dyn Filter>>, plan: Seq<Stage>, chain: Seq<ChainFilter>) -> bool {
    &&& chain.len() == plan.len()
    &&& forall|k: int| 0 <= k < plan.len() ==> #[trigger] stage_ready(c, root, ignore_stage, plan[k], chain[k])
}

/// The chain under assembly, with the stage each filter stands for.
struct ChainBuilder {
    filters: Vec<ChainFilter>,
    stages: Ghost<Seq<Stage>>,
}

impl ChainBuilder {
    /// Filter by filter, the fresh chain for the stages recorded.
    spec fn ready(&self, c: &FilterConfig, root: Seq<char>, ig: Option<Box<dyn Filter>>) -> bool {
        chain_ready(c, root, ig, self.stages@, self.filters@)
    }

    fn new(c: Ghost<&FilterConfig>, root: Ghost<Seq<char>>, ig: Ghost<Option<Box<dyn Filter>>>) -> (b: Self)
        ensures
            b.ready(c@, root@, ig@),
            b.stages@ == Seq::<Stage>::empty(),
    {
        ChainBuilder { filters: Vec::new(), stages: Ghost(Seq::empty()) }
    }

    /// Append `f`, the filter of stage `s`.
    fn add(&mut self, f: ChainFilter, s: Ghost<Stage>, c: Ghost<&FilterConfig>, root: Ghost<Seq<char>>, ig: Ghost<Option<Box<dyn Filter>>>)
        requires
            old(self).ready(c@, root@, ig@),
            stage_ready(c@, root@, ig@, s@, f),
        ensures
            final(self).ready(c@, root@, ig@),
            final(self).stages@ == old(self).stages@ + when(true, s@),
    {
        let ghost pre = self.filters@;
        let ghost gf = f;
        self.filters.push(f);
        self.stages = Ghost(self.stages@ + when(true, s@));
        proof {
            let plan = self.stages@;
            let chain = self.filters@;
            assert(chain == pre.push(gf));
            assert forall|k: int| 0 <= k < plan.len() implies #[trigger] stage_ready(c@, root@, ig@, plan[k], chain[k]) by {
                if k < pre.len() {
                    assert(plan[k] == old(self).stages@[k]);
                    assert(chain[k] == pre[k]);
                } else {
                    assert(plan[k] == s@);
                    assert(chain[k] == gf);
                }
            }
        }
    }
}

fn add_ignore_contain(c: &FilterConfig, root: &str, ig: Ghost<Option<Box<dyn Filter>>>, b: &mut ChainBuilder)
    requires
        old(b).ready(c, root@, ig@),
    ensures
        final(b).ready(c, root@, ig@),
        final(b).stages@ == old(b).stages@ + when(c.ignore_contain@.len() > 0, Stage::IgnoreContain),
{
    reveal(ChainFilter::allows);
    reveal(ChainFilter::pending);
    if c.ignore_contain.len() > 0 {
        let markers = copy_strings(&c.ignore_contain);
        assert(markers@.map_values(|m: String| m@).len() == c.ignore_contain@.map_values(|m: String| m@).len());
        let f = ChainFilter::IgnoreContain(IgnoreContainFilter::new(markers));
        b.add(f, Ghost(Stage::IgnoreContain), Ghost(c), Ghost(root@), ig);
    }
}

fn add_same_filesystem(c: &FilterConfig, root: &str, ig: Ghost<Option<Box<dyn Filter>>>, b: &mut ChainBuilder)
    requires
        old(b).ready(c, root@, ig@),
    ensures
        final(b).ready(c, root@, ig@),
        final(b).stages@ == old(b).stages@ + when(c.one_file_system, Stage::SameFilesystem),
{
    reveal(ChainFilter::allows);
    reveal(ChainFilter::pending);
    if c.one_file_system {
        let f = ChainFilter::SameFilesystem(SameFilesystemFilter::new(Box::new(NoopVolumeIdProvider)));
        b.add(f, Ghost(Stage::SameFilesystem), Ghost(c), Ghost(root@), ig);
    }
}

fn add_exclude(c: &FilterConfig, root: &str, ig: Ghost<Option<Box<dyn Filter>>>, b: &mut ChainBuilder) -> (r: Result<(), String>)
    requires
        old(b).ready(c, root@, ig@),
    ensures
        r is Err <==> c.exclude_patterns@.len() > 0 && !exclude_builds(root@, globs_view(c.exclude_patterns@)),
        r matches Err(m) ==> if (forall|i: int| 0 <= i < c.exclude_patterns@.len() ==> #[trigger] glob_accepted(c.exclude_patterns@[i]@)) {
            m@ == mismatch_message()
        } else {
            exists|d: Seq<char>| m@ == #[trigger] malformed_message(d)
        },
        r is Ok ==> final(b).ready(c, root@, ig@) && final(b).stages@ == old(b).stages@ + when(c.exclude_patterns@.len() > 0, Stage::Exclude),
{
    reveal(ChainFilter::allows);
    reveal(ChainFilter::pending);
    if c.exclude_patterns.len() > 0 {
        match ExcludeFilter::new(root, c.exclude_patterns.as_slice()) {
            Ok(e) => {
                b.add(ChainFilter::Exclude(e), Ghost(Stage::Exclude), Ghost(c), Ghost(root@), ig);
            },
            Err(m) => {
                return Err(m);
            },
        }
    }
    Ok(())
}

fn add_type(c: &FilterConfig, root: &str, ig: Ghost<Option<Box<dyn Filter>>>, b: &mut ChainBuilder)
    requires
        old(b).ready(c, root@, ig@),
    ensures
        final(b).ready(c, root@, ig@),
        final(b).stages@ == old(b).stages@ + when(c.file_types is Some, Stage::Type),
{
    reveal(ChainFilter::allows);
    reveal(ChainFilter::pending);
    if c.file_types.is_some() {
        let f = ChainFilter::Type(TypeFilter::new(c.file_types.unwrap()));
        b.add(f, Ghost(Stage::Type), Ghost(c), Ghost(root@), ig);
    }
}

fn add_extension(c: &FilterConfig, root: &str, ig: Ghost<Option<Box<dyn Filter>>>, b: &mut ChainBuilder)
    requires
        old(b).ready(c, root@, ig@),
    ensures
        final(b).ready(c, root@, ig@),
        final(b).stages@ == old(b).stages@ + when(c.extensions is Some, Stage::Extension),
{
    reveal(ChainFilter::allows);
    reveal(ChainFilter::pending);
    match &c.extensions {
        Some(set) => {
            let f = ChainFilter::Extension(ExtensionFilter::new(set.duplicate()));
            b.add(f, Ghost(Stage::Extension), Ghost(c), Ghost(root@), ig);
        },
        None => {},
    }
}

fn add_size(c: &FilterConfig, root: &str, ig: Ghost<Option<Box<dyn Filter>>>, b: &mut ChainBuilder)
    requires
        old(b).ready(c, root@, ig@),
    ensures
        final(b).ready(c, root@, ig@),
        final(b).stages@ == old(b).stages@ + when(c.size_constraints@.len() > 0, Stage::Size),
{
    reveal(ChainFilter::allows);
    reveal(ChainFilter::pending);
    if c.size_constraints.len() > 0 {
        let f = ChainFilter::Size(SizeConstraints::new(copy_sizes(&c.size_constraints)));
        b.add(f, Ghost(Stage::Size), Ghost(c), Ghost(root@), ig);
    }
}

fn add_time(c: &FilterConfig, root: &str, ig: Ghost<Option<Box<dyn Filter>>>, b: &mut ChainBuilder)
    requires
        old(b).ready(c, root@, ig@),
    ensures
        final(b).ready(c, root@, ig@),
        final(b).stages@ == old(b).stages@ + when(c.time_constraints@.len() > 0, Stage::Time),
{
    reveal(ChainFilter::allows);
    reveal(ChainFilter::pending);
    if c.time_constraints.len() > 0 {
        let f = ChainFilter::Time(TimeConstraints::new(copy_times(&c.time_constraints)));
        b.add(f, Ghost(Stage::Time), Ghost(c), Ghost(root@), ig);
    }
}

fn add_depth(c: &FilterConfig, root: &str, ig: Ghost<Option<Box<dyn Filter>>>, b: &mut ChainBuilder)
    requires
        old(b).ready(c, root@, ig@),
    ensures
        final(b).ready(c, root@, ig@),
        final(b).stages@ == old(b).stages@ + when(c.min_depth is Some || c.max_depth is Some, Stage::Depth),
{
    reveal(ChainFilter::allows);
    reveal(ChainFilter::pending);
    if c.min_depth.is_some() || c.max_depth.is_some() {
        let f = ChainFilter::Depth(DepthFilter::new(c.min_depth, c.max_depth));
        b.add(f, Ghost(Stage::Depth), Ghost(c), Ghost(root@), ig);
    }
}

fn add_hidden_by_name(c: &FilterConfig, root: &str, ig: Ghost<Option<Box<dyn Filter>>>, b: &mut ChainBuilder)
    requires
        old(b).ready(c, root@, ig@),
    ensures
        final(b).ready(c, root@, ig@),
        final(b).stages@ == old(b).stages@ + when(c.ignore_hidden, Stage::HiddenByName),
{
    reveal(ChainFilter::allows);
    reveal(ChainFilter::pending);
    if c.ignore_hidden {
        let f = ChainFilter::HiddenByName(HiddenByNameFilter::new(true));
        b.add(f, Ghost(Stage::HiddenByName), Ghost(c), Ghost(root@), ig);
    }
}

fn add_ignore_files(c: &FilterConfig, root: &str, ig: Ghost<Option<Box<dyn Filter>>>, b: &mut ChainBuilder, ignore_stage: Option<Box<dyn Filter>>)
    requires
        old(b).ready(c, root@, ig@),
        ignore_stage == ig@,
        ignore_stage is Some <==> (c.read_fdignore || c.read_vcsignore),
    ensures
        final(b).ready(c, root@, ig@),
        final(b).stages@ == old(b).stages@ + when(c.read_fdignore || c.read_vcsignore, Stage::IgnoreFiles),
{
    reveal(ChainFilter::allows);
    reveal(ChainFilter::pending);
    match ignore_stage {
        Some(f) => {
            b.add(ChainFilter::Custom(f), Ghost(Stage::IgnoreFiles), Ghost(c), Ghost(root@), ig);
        },
        None => {},
    }
}

fn add_hidden_by_attr(c: &FilterConfig, root: &str, ig: Ghost<Option<Box<dyn Filter>>>, b: &mut ChainBuilder)
    requires
        old(b).ready(c, root@, ig@),
    ensures
        final(b).ready(c, root@, ig@),
        final(b).stages@ == old(b).stages@ + when(c.ignore_hidden, Stage::HiddenByAttr),
{
    reveal(ChainFilter::allows);
    reveal(ChainFilter::pending);
    if c.ignore_hidden {
        let f = ChainFilter::HiddenByAttr(HiddenByAttrFilter::new(true));
        b.add(f, Ghost(Stage::HiddenByAttr), Ghost(c), Ghost(root@), ig);
    }
}

fn add_prune(c: &FilterConfig, root: &str, ig: Ghost<Option<Box<dyn Filter>>>, b: &mut ChainBuilder)
    requires
        old(b).ready(c, root@, ig@),
    ensures
        final(b).ready(c, root@, ig@),
        final(b).stages@ == old(b).stages@ + when(c.prune, Stage::Prune),
{
    reveal(ChainFilter::allows);
    reveal(ChainFilter::pending);
    if c.prune {
        let f = ChainFilter::Prune(PruneFilter::new());
        b.add(f, Ghost(Stage::Prune), Ghost(c), Ghost(root@), ig);
    }
}

fn add_symlink(c: &FilterConfig, root: &str, ig: Ghost<Option<Box<dyn Filter>>>, b: &mut ChainBuilder)
    requires
        old(b).ready(c, root@, ig@),
    ensures
        final(b).ready(c, root@, ig@),
        final(b).stages@ == old(b).stages@ + when(!c.follow_links, Stage::Symlink),
{
    reveal(ChainFilter::allows);
    reveal(ChainFilter::pending);
    if !c.follow_links {
        let f = ChainFilter::Symlink(SymlinkFilter::new(c.follow_links));
        b.add(f, Ghost(Stage::Symlink), Ghost(c), Ghost(root@), ig);
    }
}

fn add_max_results(c: &FilterConfig, root: &str, ig: Ghost<Option<Box<dyn Filter>>>, b: &mut ChainBuilder, cancel: &CancellationToken)
    requires
        old(b).ready(c, root@, ig@),
    ensures
        final(b).ready(c, root@, ig@),
        final(b).stages@ == old(b).stages@ + when(c.max_results is Some, Stage::MaxResults),
{
    reveal(ChainFilter::allows);
    reveal(ChainFilter::pending);
    if c.max_results.is_some() {
        let f = ChainFilter::MaxResults(MaxResultsFilter::new(c.max_results.unwrap(), cancel.clone()));
        b.add(f, Ghost(Stage::MaxResults), Ghost(c), Ghost(root@), ig);
    }
}

/// The pipeline for the options `c`: one fresh filter per stage of
/// `stage_plan(c)`, in that order, and nothing else, each answering as its
/// stage does (`stage_ready`), with the exclude globs anchored at
/// `first_root`. The ignore-file stage is `ignore_stage`, which the caller
/// builds (it reads ignore files from disk) exactly when
/// `ignore_flags_from(c)` reads any. The only failure is an exclude glob
/// that will not build.
pub fn build_pipeline(
    c: &FilterConfig,
    first_root: &str,
    cancel: &CancellationToken,
    ignore_stage: Option<Box<dyn Filter>>,
) -> (r: Result<Pipeline, String>)
    requires
        ignore_stage is Some <==> (c.read_fdignore || c.read_vcsignore),
    ensures
        r is Err <==> c.exclude_patterns@.len() > 0 && !exclude_builds(first_root@, globs_view(c.exclude_patterns@)),
        r matches Err(m) ==> if (forall|i: int| 0 <= i < c.exclude_patterns@.len() ==> #[trigger] glob_accepted(c.exclude_patterns@[i]@)) {
            m@ == mismatch_message()
        } else {
            exists|d: Seq<char>| m@ == #[trigger] malformed_message(d)
        },
        r matches Ok(p) ==> p.stages() == Some(plan_spec(c)) && chain_ready(c, first_root@, ignore_stage, plan_spec(c), p.chain()),
{
    let ig: Ghost<Option<Box<dyn Filter>>> = Ghost(ignore_stage);
    let mut b = ChainBuilder::new(Ghost(c), Ghost(first_root@), ig);
    add_ignore_contain(c, first_root, ig, &mut b);
    assert(b.stages@ =~= when(c.ignore_contain@.len() > 0, Stage::IgnoreContain));
    add_same_filesystem(c, first_root, ig, &mut b);
    match add_exclude(c, first_root, ig, &mut b) {
        Ok(()) => {},
        Err(m) => {
            return Err(m);
        },
    }
    add_type(c, first_root, ig, &mut b);
    add_extension(c, first_root, ig, &mut b);
    add_size(c, first_root, ig, &mut b);
    add_time(c, first_root, ig, &mut b);
    add_depth(c, first_root, ig, &mut b);
    add_hidden_by_name(c, first_root, ig, &mut b);
    add_ignore_files(c, first_root, ig, &mut b, ignore_stage);
    add_hidden_by_attr(c, first_root, ig, &mut b);
    add_prune(c, first_root, ig, &mut b);
    add_symlink(c, first_root, ig, &mut b);
    add_max_results(c, first_root, ig, &mut b, cancel);
    let ChainBuilder { filters, stages } = b;
    Ok(Pipeline::planned(filters, stages))
}

pub open spec fn no_max_results(a: Seq<Stage>) -> bool {
    forall|i: int| 0 <= i < a.len() ==> a[i] != Stage::MaxResults
}

proof fn lemma_append_when(a: Seq<Stage>, b: bool, s: Stage)
    requires
        no_max_results(a),
        s != Stage::MaxResults,
    ensures
        no_max_results(a + when(b, s)),
{
    let r = a + when(b, s);
    assert forall|i: int| 0 <= i < r.len() implies r[i] != Stage::MaxResults by {
        if i >= a.len() {
            assert(r[i] == s);
        }
    }
}

/// `--max-results` comes last in the chain, and nowhere else: whatever it
/// counts has passed every other filter.
pub proof fn lemma_max_results_is_last(c: &FilterConfig)
    requires
        c.max_results is Some,
    ensures
        plan_spec(c).len() > 0,
        plan_spec(c).last() == Stage::MaxResults,
        forall|i: int| 0 <= i < plan_spec(c).len() - 1 ==> plan_spec(c)[i] != Stage::MaxResults,
{
    lemma_no_limit_before(c);
    let head = stages_before_limit(c);
    assert(plan_spec(c) =~= head.push(Stage::MaxResults));
    assert(forall|i: int| 0 <= i < head.len() ==> head[i] != Stage::MaxResults);
}

#[verifier::rlimit(30)]
proof fn lemma_no_limit_before(c: &FilterConfig)
    ensures
        no_max_results(stages_before_limit(c)),
{
    let s1 = when(c.ignore_contain@.len() > 0, Stage::IgnoreContain);
    assert(no_max_results(s1));
    let s2 = s1 + when(c.one_file_system, Stage::SameFilesystem);
    lemma_append_when(s1, c.one_file_system, Stage::SameFilesystem);
    let s3 = s2 + when(c.exclude_patterns@.len() > 0, Stage::Exclude);
    lemma_append_when(s2, c.exclude_patterns@.len() > 0, Stage::Exclude);
    let s4 = s3 + when(c.file_types is Some, Stage::Type);
    lemma_append_when(s3, c.file_types is Some, Stage::Type);
    let s5 = s4 + when(c.extensions is Some, Stage::Extension);
    lemma_append_when(s4, c.extensions is Some, Stage::Extension);
    let s6 = s5 + when(c.size_constraints@.len() > 0, Stage::Size);
    lemma_append_when(s5, c.size_constraints@.len() > 0, Stage::Size);
    let s7 = s6 + when(c.time_constraints@.len() > 0, Stage::Time);
    lemma_append_when(s6, c.time_constraints@.len() > 0, Stage::Time);
    let s8 = s7 + when(c.min_depth is Some || c.max_depth is Some, Stage::Depth);
    lemma_append_when(s7, c.min_depth is Some || c.max_depth is Some, Stage::Depth);
    let s9 = s8 + when(c.ignore_hidden, Stage::HiddenByName);
    lemma_append_when(s8, c.ignore_hidden, Stage::HiddenByName);
    let s10 = s9 + when(c.read_fdignore || c.read_vcsignore, Stage::IgnoreFiles);
    lemma_append_when(s9, c.read_fdignore || c.read_vcsignore, Stage::IgnoreFiles);
    let s11 = s10 + when(c.ignore_hidden, Stage::HiddenByAttr);
    lemma_append_when(s10, c.ignore_hidden, Stage::HiddenByAttr);
    let s12 = s11 + when(c.prune, Stage::Prune);
    lemma_append_when(s11, c.prune, Stage::Prune);
    lemma_append_when(s12, !c.follow_links, Stage::Symlink);
}

/// A hit that a fresh pipeline for the options `c` forwards has been kept
/// by every configured stage, in chain order; one that it drops was kept by
/// every stage before one that drops it. (The ignore-file stage answers as
/// the filter supplied for it does.)
pub proof fn lemma_fresh_chain_decides_by_stages(
    c: &FilterConfig,
    root: Seq<char>,
    ignore_stage: Option<Box<dyn Filter>>,
    before: Seq<ChainFilter>,
    after: Seq<ChainFilter>,
    hit: RawHitView,
    out: PipelineOutcome,
)
    requires
        chain_ready(c, root, ignore_stage, plan_spec(c), before),
        step(before, after, hit, out),
    ensures
        out == PipelineOutcome::Forward ==> forall|k: int| 0 <= k < plan_spec(c).len() && plan_spec(c)[k] != Stage::IgnoreFiles
            ==> #[trigger] stage_allows(c, root, plan_spec(c)[k], hit, Verdict::Keep),
        out == PipelineOutcome::Drop ==> exists|k: int| 0 <= k < plan_spec(c).len()
            && (plan_spec(c)[k] != Stage::IgnoreFiles ==> #[trigger] stage_allows(c, root, plan_spec(c)[k], hit, Verdict::Drop))
            && forall|j: int| 0 <= j < k && plan_spec(c)[j] != Stage::IgnoreFiles
                ==> #[trigger] stage_allows(c, root, plan_spec(c)[j], hit, Verdict::Keep),
{
    let plan = plan_spec(c);
    let k = choose|k: int| step_at(before, after, hit, out, k);
    assert forall|j: int| 0 <= j < k && plan[j] != Stage::IgnoreFiles implies #[trigger] stage_allows(c, root, plan[j], hit, Verdict::Keep) by {
        assert(stage_ready(c, root, ignore_stage, plan[j], before[j]));
        assert(before[j].allows(hit, Verdict::Keep));
    }
    if out == PipelineOutcome::Forward {
        if k < before.len() {
            let v = choose|v: Verdict| v != Verdict::Keep && before[k].allows(hit, v)
                && before[k].moves_to(after[k], hit, v) && out == outcome_of(v);
        }
        assert(k == before.len());
    }
    if out == PipelineOutcome::Drop {
        assert(k < before.len());
        let v = choose|v: Verdict| v != Verdict::Keep && before[k].allows(hit, v)
            && before[k].moves_to(after[k], hit, v) && out == outcome_of(v);
        assert(v == Verdict::Drop);
        assert(stage_ready(c, root, ignore_stage, plan[k], before[k]));
    }
}

} // verus!
