//! `-E` / `--exclude`: a hit that one of the exclude globs matches is
//! dropped. The globs arrive already negated (`!pattern`), so that the
//! override matcher reports them as ignores.

use vstd::prelude::*;
use ignore::overrides::{Override, OverrideBuilder};
use crate::scan::backend::{RawHit, RawHitView};
use crate::scan::post_filter::{Filter, Verdict};
use crate::text;

verus! {

#[verifier::external_type_specification]
#[verifier::external_body]
pub struct ExOverride(Override);

#[verifier::external_type_specification]
#[verifier::external_body]
pub struct ExOverrideBuilder(OverrideBuilder);

#[verifier::external_type_specification]
#[verifier::external_body]
pub struct ExIgnoreError(ignore::Error);

/// What an override matcher says about a path.
#[derive(Debug, Clone, Copy, PartialEq, Eq, Structural)]
pub enum OverrideMatch {
    /// No glob applies.
    Unmatched,
    /// A negated glob matched: the path is excluded.
    Ignore,
    /// A plain glob matched: the path is explicitly included.
    Whitelist,
}

/// What `ignore::overrides::Override::matched` says of `path` (a directory
/// when `is_dir`) for the matcher built from the accepted `globs`, in
/// order, anchored at `root`.
pub uninterp spec fn override_match(root: Seq<char>, globs: Seq<Seq<char>>, path: Seq<char>, is_dir: bool) -> OverrideMatch;

/// Whether `ignore::overrides::OverrideBuilder::add` accepts `glob`.
pub uninterp spec fn glob_accepted(glob: Seq<char>) -> bool;

/// Whether `ignore::overrides::OverrideBuilder::build` succeeds for the
/// accepted `globs` anchored at `root`.
pub uninterp spec fn overrides_build(root: Seq<char>, globs: Seq<Seq<char>>) -> bool;

/// An override builder together with what it was given: its root and the
/// globs it accepted, in order. Only the wrappers below make one.
pub struct OverrideGlobs {
    builder: OverrideBuilder,
    root: Ghost<Seq<char>>,
    globs: Ghost<Seq<Seq<char>>>,
}

impl OverrideGlobs {
    pub closed spec fn root(&self) -> Seq<char> {
        self.root@
    }

    pub closed spec fn globs(&self) -> Seq<Seq<char>> {
        self.globs@
    }
}

/// A built override matcher together with the root and globs it was built
/// from. Only `override_build` makes one.
pub struct CompiledOverride {
    matcher: Override,
    root: Ghost<Seq<char>>,
    globs: Ghost<Seq<Seq<char>>>,
}

impl CompiledOverride {
    pub closed spec fn root(&self) -> Seq<char> {
        self.root@
    }

    pub closed spec fn globs(&self) -> Seq<Seq<char>> {
        self.globs@
    }

    /// The matcher itself, for the file-system walker.
    pub fn into_matcher(self) -> Override {
        self.matcher
    }
}

/// `ignore::overrides::OverrideBuilder::new`: a builder whose globs match
/// relative to `root`, with no glob yet.
#[verifier::external_body]
fn override_builder(root: &str) -> (b: OverrideGlobs)
    ensures
        b.root() == root@,
        b.globs() == Seq::<Seq<char>>::empty(),
{
    OverrideGlobs { builder: OverrideBuilder::new(root), root: Ghost(root@), globs: Ghost(Seq::empty()) }
}

/// `ignore::overrides::OverrideBuilder::add`: accepts `glob` (and then
/// holds it after the others) exactly when `glob_accepted` says so; a
/// refused glob leaves the builder as it was.
#[verifier::external_body]
fn override_add(b: &mut OverrideGlobs, glob: &str) -> (r: Result<(), ignore::Error>)
    ensures
        r is Ok <==> glob_accepted(glob@),
        final(b).root() == old(b).root(),
        final(b).globs() == (if r is Ok { old(b).globs().push(glob@) } else { old(b).globs() }),
{
    match b.builder.add(glob) {
        Ok(_) => {
            b.globs = Ghost(b.globs@.push(glob@));
            Ok(())
        },
        Err(e) => Err(e),
    }
}

/// `ignore::overrides::OverrideBuilder::build`: the matcher of the globs
/// added so far, exactly when `overrides_build` says the build succeeds.
#[verifier::external_body]
fn override_build(b: &OverrideGlobs) -> (r: Result<CompiledOverride, ignore::Error>)
    ensures
        r is Ok <==> overrides_build(b.root(), b.globs()),
        r matches Ok(c) ==> c.root() == b.root() && c.globs() == b.globs(),
{
    match b.builder.build() {
        Ok(matcher) => Ok(CompiledOverride { matcher, root: Ghost(b.root@), globs: Ghost(b.globs@) }),
        Err(e) => Err(e),
    }
}

/// The `Display` text of an `ignore::Error`.
#[verifier::external_body]
fn ignore_error_text(e: &ignore::Error) -> String {
    e.to_string()
}

/// `ignore::overrides::Override::matched`, told apart by variant: the
/// answer is `override_match` of what the matcher was built from.
#[verifier::external_body]
fn override_matched(o: &CompiledOverride, path: &str, is_dir: bool) -> (r: OverrideMatch)
    ensures
        r == override_match(o.root(), o.globs(), path@, is_dir),
{
    match o.matcher.matched(path, is_dir) {
        ignore::Match::None => OverrideMatch::Unmatched,
        ignore::Match::Ignore(_) => OverrideMatch::Ignore,
        ignore::Match::Whitelist(_) => OverrideMatch::Whitelist,
    }
}

/// The verdict for what the matcher said: an ignore match drops the hit,
/// anything else keeps it.
pub open spec fn exclude_verdict(m: OverrideMatch) -> Verdict {
    if m == OverrideMatch::Ignore { Verdict::Drop } else { Verdict::Keep }
}

pub fn verdict_for(m: OverrideMatch) -> (v: Verdict)
    ensures
        v == exclude_verdict(m),
{
    match m {
        OverrideMatch::Ignore => Verdict::Drop,
        OverrideMatch::Unmatched | OverrideMatch::Whitelist => Verdict::Keep,
    }
}

pub struct ExcludeFilter {
    overrides: CompiledOverride,
}

/// The message for a glob the matcher refused.
pub open spec fn malformed_message(detail: Seq<char>) -> Seq<char> {
    "Malformed exclude pattern: "@ + detail
}

/// The message for a set of globs that would not build.
pub open spec fn mismatch_message() -> Seq<char> {
    "Mismatch in exclude patterns"@
}

/// The globs as text.
pub open spec fn globs_view(patterns: Seq<String>) -> Seq<Seq<char>> {
    patterns.map_values(|p: String| p@)
}

/// Whether the exclude matcher builds: every glob is accepted and the
/// build succeeds.
pub open spec fn exclude_builds(root: Seq<char>, globs: Seq<Seq<char>>) -> bool {
    &&& forall|i: int| 0 <= i < globs.len() ==> #[trigger] glob_accepted(globs[i])
    &&& overrides_build(root, globs)
}

/// The exclude matcher for the globs, anchored at `first_root`: a refused
/// glob stops the build with its message; a failed build reports the
/// mismatch. Both the index path and the file-system walker use it.
pub fn build_overrides(first_root: &str, patterns: &[String]) -> (r: Result<CompiledOverride, String>)
    ensures
        r is Ok <==> exclude_builds(first_root@, globs_view(patterns@)),
        r matches Ok(o) ==> o.root() == first_root@ && o.globs() == globs_view(patterns@),
        r matches Err(m) ==> if (forall|i: int| 0 <= i < patterns@.len() ==> #[trigger] glob_accepted(patterns@[i]@)) {
            m@ == mismatch_message()
        } else {
            exists|d: Seq<char>| m@ == #[trigger] malformed_message(d)
        },
{
    let ghost gv = globs_view(patterns@);
    let mut builder = override_builder(first_root);
    let mut i: usize = 0;
    while i < patterns.len()
        invariant
            i <= patterns.len(),
            gv == globs_view(patterns@),
            builder.root() == first_root@,
            builder.globs() == gv.take(i as int),
            forall|j: int| 0 <= j < i ==> #[trigger] glob_accepted(gv[j]),
        decreases patterns.len() - i,
    {
        match override_add(&mut builder, patterns[i].as_str()) {
            Ok(()) => {
                assert(gv.take(i + 1) =~= gv.take(i as int).push(gv[i as int]));
            },
            Err(e) => {
                let detail = ignore_error_text(&e);
                let mut m = String::new();
                text::push_str(&mut m, "Malformed exclude pattern: ");
                text::push_str(&mut m, detail.as_str());
                assert(m@ =~= malformed_message(detail@));
                assert(!glob_accepted(patterns@[i as int]@));
                assert(gv[i as int] == patterns@[i as int]@);
                assert(!exclude_builds(first_root@, gv));
                return Err(m);
            },
        }
        i += 1;
    }
    assert(gv.take(i as int) =~= gv);
    match override_build(&builder) {
        Ok(overrides) => Ok(overrides),
        Err(_) => {
            let m = String::from_str("Mismatch in exclude patterns");
            proof {
                reveal_strlit("Mismatch in exclude patterns");
                assert forall|j: int| 0 <= j < patterns@.len() implies #[trigger] glob_accepted(patterns@[j]@) by {
                    assert(gv[j] == patterns@[j]@);
                }
            }
            Err(m)
        },
    }
}

impl ExcludeFilter {
    /// Build the filter from the exclude globs, anchored at `first_root`;
    /// it fails as `build_overrides` does.
    pub fn new(first_root: &str, patterns: &[String]) -> (r: Result<Self, String>)
        ensures
            r is Ok <==> exclude_builds(first_root@, globs_view(patterns@)),
            r matches Ok(f) ==> f.root() == first_root@ && f.globs() == globs_view(patterns@),
            r matches Ok(f) ==> forall|h: RawHitView, v: Verdict| #[trigger] f.allows(h, v)
                == (v == exclude_verdict(override_match(first_root@, globs_view(patterns@), h.path, h.is_dir))),
            r matches Ok(f) ==> f.pending() == Seq::<RawHitView>::empty(),
            r matches Err(m) ==> if (forall|i: int| 0 <= i < patterns@.len() ==> #[trigger] glob_accepted(patterns@[i]@)) {
                m@ == mismatch_message()
            } else {
                exists|d: Seq<char>| m@ == #[trigger] malformed_message(d)
            },
    {
        match build_overrides(first_root, patterns) {
            Ok(overrides) => Ok(ExcludeFilter { overrides }),
            Err(m) => Err(m),
        }
    }

    /// The root the globs are anchored at.
    pub closed spec fn root(&self) -> Seq<char> {
        self.overrides.root()
    }

    /// The exclude globs, in order.
    pub closed spec fn globs(&self) -> Seq<Seq<char>> {
        self.overrides.globs()
    }
}

impl Filter for ExcludeFilter {
    closed spec fn allows(&self, hit: RawHitView, v: Verdict) -> bool {
        v == exclude_verdict(override_match(self.root(), self.globs(), hit.path, hit.is_dir))
    }

    closed spec fn pending(&self) -> Seq<RawHitView> {
        Seq::empty()
    }

    /// Keep or drop as the matcher says of the hit's path.
    fn evaluate(&mut self, hit: &RawHit) -> (v: Verdict)
        ensures
            v == exclude_verdict(override_match(old(self).root(), old(self).globs(), hit.path@, hit.is_dir)),
            *final(self) == *old(self),
    {
        let m = override_matched(&self.overrides, hit.path.as_str(), hit.is_dir);
        verdict_for(m)
    }

    fn drain(&mut self) -> (r: Vec<RawHit>) {
        Vec::new()
    }
}

} // verus!
